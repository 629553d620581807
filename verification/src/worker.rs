//! The per-worker transfer loop as a state machine. A worker issues one
//! fixed-size transfer at a time against its own segment of the device; the
//! transfers themselves are operating-system calls made outside the
//! library, which reports each result back here. The machine decides when
//! to keep going, how the position advances, and what single outcome the
//! run ends with.

use vstd::prelude::*;
use crate::plan::WorkPlan;
use crate::MEGABYTE;

verus! {

/// Whether a run reads from the device or writes to it.
#[derive(Clone, Copy, Debug, PartialEq, Eq, Structural)]
pub enum IoMode {
    Read,
    Write,
}

/// How one worker's run ended: every transfer up to the bound succeeded, or
/// a transfer failed with an operating-system error code.
#[derive(Clone, Copy, Debug, PartialEq, Eq, Structural)]
pub enum IoStatus {
    Finished,
    Failed(u32),
}

/// The one message a worker emits when its run is over: who it was, how the
/// run ended, and how long the transfer loop took.
#[derive(Clone, Copy, Debug, PartialEq, Eq, Structural)]
pub struct IOOutcome {
    pub worker_id: u64,
    pub status: IoStatus,
    pub elapsed_seconds: u64,
}

/// Where a worker's loop stands: still transferring, or stopped by a failed
/// transfer carrying its error code.
#[derive(Clone, Copy, Debug, PartialEq, Eq, Structural)]
pub enum WorkerPhase {
    Active,
    Failed(u32),
}

/// The head reservation skipped before the first transfer: one megabyte in
/// write mode, to keep a destructive run off the reserved region at the
/// start of the addressable range, and nothing in read mode.
pub open spec fn spec_head_reservation(mode: IoMode) -> int {
    if mode is Write {
        MEGABYTE as int
    } else {
        0
    }
}

/// The file position a worker's handle starts at: its plan's byte offset
/// plus the head reservation of its mode.
pub fn initial_file_position(plan: &WorkPlan, mode: IoMode) -> (p: u64)
    requires
        plan.byte_offset + spec_head_reservation(mode) <= u64::MAX,
    ensures
        p == plan.byte_offset + spec_head_reservation(mode),
{
    match mode {
        IoMode::Write => plan.byte_offset + MEGABYTE,
        IoMode::Read => plan.byte_offset,
    }
}

/// The core a worker's thread is pinned to: its id modulo the number of
/// cores available in the process's first core group.
pub fn affinity_core(worker_id: u64, core_count: u64) -> (c: u64)
    requires
        core_count >= 1,
    ensures
        c == worker_id % core_count,
{
    worker_id % core_count
}

/// The outcome of a run that never started transferring: its device open
/// failed with the given code, surfaced up without retry.
pub fn failed_outcome(plan: &WorkPlan, error_code: u32, elapsed_seconds: u64) -> (o: IOOutcome)
    ensures
        o.worker_id == plan.worker_id,
        o.status == IoStatus::Failed(error_code),
        o.elapsed_seconds == elapsed_seconds,
{
    IOOutcome { worker_id: plan.worker_id, status: IoStatus::Failed(error_code), elapsed_seconds }
}

/// One worker's progress through its segment: the position its transfers
/// have reached, the bound past which it issues no further transfer, and
/// whether a transfer has failed.
#[derive(Clone, Copy, Debug, PartialEq, Eq, Structural)]
pub struct WorkerProgress {
    pub worker_id: u64,
    pub byte_bound: u64,
    pub position: u64,
    pub phase: WorkerPhase,
}

impl WorkerProgress {
    /// Whether the loop is still running: no transfer has failed and the
    /// position has not yet passed the bound.
    pub open spec fn spec_wants_transfer(self) -> bool {
        self.phase is Active && self.position <= self.byte_bound
    }

    /// The status the run ends with: `Failed` with the recorded error code
    /// if a transfer failed, else `Finished`.
    pub open spec fn spec_status(self) -> IoStatus {
        match self.phase {
            WorkerPhase::Active => IoStatus::Finished,
            WorkerPhase::Failed(code) => IoStatus::Failed(code),
        }
    }

    /// Starts a worker's run at its plan's byte offset, with no failure
    /// recorded.
    pub fn new(plan: &WorkPlan) -> (w: WorkerProgress)
        ensures
            w.worker_id == plan.worker_id,
            w.byte_bound == plan.byte_bound,
            w.position == plan.byte_offset,
            w.phase is Active,
    {
        WorkerProgress {
            worker_id: plan.worker_id,
            byte_bound: plan.byte_bound,
            position: plan.byte_offset,
            phase: WorkerPhase::Active,
        }
    }

    /// Whether one more transfer should be issued, at the current position.
    pub fn wants_transfer(&self) -> (b: bool)
        ensures
            b == self.spec_wants_transfer(),
    {
        match self.phase {
            WorkerPhase::Active => self.position <= self.byte_bound,
            WorkerPhase::Failed(_) => false,
        }
    }

    /// Records the result of one transfer: the position advances by the
    /// bytes the operating system completed — on failure as well as on
    /// success — and a failure ends the loop with its error code. The
    /// position never decreases.
    pub fn record_transfer(&mut self, ok: bool, bytes_completed: u64, error_code: u32)
        requires
            old(self).spec_wants_transfer(),
            old(self).position + bytes_completed <= u64::MAX,
        ensures
            final(self).worker_id == old(self).worker_id,
            final(self).byte_bound == old(self).byte_bound,
            final(self).position == old(self).position + bytes_completed,
            ok ==> final(self).phase is Active,
            !ok ==> final(self).phase == WorkerPhase::Failed(error_code),
            old(self).position <= final(self).position,
    {
        self.position = self.position + bytes_completed;
        if !ok {
            self.phase = WorkerPhase::Failed(error_code);
        }
    }

    /// The single outcome the run ends with, to be sent to the aggregator
    /// as the worker's final action. Only a run whose loop is over — failed,
    /// or with its position past the bound — has an outcome.
    pub fn outcome(&self, elapsed_seconds: u64) -> (o: IOOutcome)
        requires
            !self.spec_wants_transfer(),
        ensures
            o.worker_id == self.worker_id,
            o.status == self.spec_status(),
            o.elapsed_seconds == elapsed_seconds,
            self.phase is Active ==> o.status is Finished,
            self.phase matches WorkerPhase::Failed(code) ==> o.status == IoStatus::Failed(code),
    {
        let status = match self.phase {
            WorkerPhase::Active => IoStatus::Finished,
            WorkerPhase::Failed(code) => IoStatus::Failed(code),
        };
        IOOutcome { worker_id: self.worker_id, status, elapsed_seconds }
    }
}

} // verus!
