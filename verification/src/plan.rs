//! Work partitioning: splitting a byte limit across a number of workers.
//!
//! Each worker receives a `WorkPlan` naming its id, a page-aligned start
//! offset, and the bound past which it issues no further transfer. The
//! segment size is the byte limit divided (integer division) by the worker
//! count; bytes beyond `segment_size * worker_count` are deliberately left
//! uncovered.

use vstd::prelude::*;
use crate::align::{align_up, spec_align_up, lemma_align_up_props, lemma_align_up_monotone};
use crate::PAGE_SIZE;
use crate::GIGABYTE;

verus! {

/// One worker's share of the device: its id (counted from 1), the
/// page-aligned byte offset of its first transfer, and the last position at
/// which a transfer may still be issued.
#[derive(Clone, Copy, Debug, PartialEq, Eq, Structural)]
pub struct WorkPlan {
    pub worker_id: u64,
    pub byte_offset: u64,
    pub byte_bound: u64,
}

/// The number of bytes assigned to each worker: the limit divided by the
/// worker count, rounding down.
pub open spec fn spec_segment_size(limit_bytes: u64, worker_count: u64) -> int
    recommends
        worker_count >= 1,
{
    limit_bytes as int / worker_count as int
}

/// The plan at position `k` (worker id `k + 1`): the raw offset
/// `k * segment_size` snapped up to the page granularity, and the bound
/// `(k + 1) * segment_size - transfer_unit`, which keeps the worker's last
/// transfer from running past its segment by more than one unit.
pub open spec fn plan_matches(
    p: WorkPlan,
    limit_bytes: u64,
    worker_count: u64,
    transfer_unit: u64,
    k: int,
) -> bool {
    let seg = spec_segment_size(limit_bytes, worker_count);
    &&& p.worker_id == k + 1
    &&& p.byte_offset == spec_align_up(PAGE_SIZE, (k * seg) as u64)
    &&& p.byte_bound == (k + 1) * seg - transfer_unit
}

/// What `partition` returns: one plan per worker id `1..=worker_count`, in
/// order, each exactly as `plan_matches` states.
pub open spec fn partition_post(
    plans: Seq<WorkPlan>,
    limit_bytes: u64,
    worker_count: u64,
    transfer_unit: u64,
) -> bool {
    &&& plans.len() == worker_count
    &&& forall|k: int|
        0 <= k < worker_count ==> plan_matches(
            #[trigger] plans[k],
            limit_bytes,
            worker_count,
            transfer_unit,
            k,
        )
}

/// Bounds on multiples of the segment size that the partitioner relies on:
/// every multiple `id * segment_size` with `id <= worker_count` stays within
/// the byte limit.
proof fn lemma_segment_bounds(limit_bytes: u64, worker_count: u64, id: u64)
    requires
        1 <= worker_count,
        1 <= id <= worker_count,
    ensures
        0 <= spec_segment_size(limit_bytes, worker_count) <= limit_bytes,
        (id - 1) * spec_segment_size(limit_bytes, worker_count) <= limit_bytes,
        spec_segment_size(limit_bytes, worker_count) <= id * spec_segment_size(
            limit_bytes,
            worker_count,
        ) <= limit_bytes,
        0 <= (id - 1) * spec_segment_size(limit_bytes, worker_count) <= id * spec_segment_size(
            limit_bytes,
            worker_count,
        ),
{
    let seg = spec_segment_size(limit_bytes, worker_count);
    assert(0 <= seg <= limit_bytes && worker_count * seg <= limit_bytes) by (nonlinear_arith)
        requires
            seg == limit_bytes as int / worker_count as int,
            worker_count >= 1,
            limit_bytes >= 0,
    ;
    assert(seg <= id * seg <= worker_count * seg && 0 <= (id - 1) * seg <= id * seg)
        by (nonlinear_arith)
        requires
            1 <= id <= worker_count,
            seg >= 0,
    ;
}

/// Splits `limit_bytes` across `worker_count` workers: returns one plan per
/// worker id `1..=worker_count`, each with its raw offset
/// `(id - 1) * segment_size` snapped up to the page granularity and its
/// transfer bound `id * segment_size - transfer_unit`.
pub fn partition(limit_bytes: u64, worker_count: u64, transfer_unit: u64) -> (plans: Vec<WorkPlan>)
    requires
        1 <= worker_count,
        transfer_unit <= limit_bytes / worker_count,
        limit_bytes <= u64::MAX - PAGE_SIZE,
    ensures
        partition_post(plans@, limit_bytes, worker_count, transfer_unit),
{
    let segment_size = limit_bytes / worker_count;
    let mut plans: Vec<WorkPlan> = Vec::new();
    let mut done: u64 = 0;
    while done < worker_count
        invariant
            0 <= done <= worker_count,
            1 <= worker_count,
            segment_size == spec_segment_size(limit_bytes, worker_count),
            transfer_unit <= segment_size,
            limit_bytes <= u64::MAX - PAGE_SIZE,
            plans@.len() == done,
            forall|k: int|
                0 <= k < done ==> plan_matches(
                    #[trigger] plans@[k],
                    limit_bytes,
                    worker_count,
                    transfer_unit,
                    k,
                ),
        decreases worker_count - done,
    {
        let id = done + 1;
        proof {
            lemma_segment_bounds(limit_bytes, worker_count, id);
        }
        let raw_offset = (id - 1) * segment_size;
        proof {
            lemma_align_up_props(PAGE_SIZE, raw_offset);
        }
        let byte_offset = align_up(PAGE_SIZE, raw_offset);
        let byte_bound = id * segment_size - transfer_unit;
        plans.push(WorkPlan { worker_id: id, byte_offset, byte_bound });
        done = done + 1;
    }
    plans
}

/// Work Partitioner law: the partitioning yields exactly one plan per
/// worker, every start offset is page-aligned, offsets are non-decreasing
/// in worker id, and every worker's transfer range — its bound plus the one
/// transfer unit of slack — stays within the byte limit.
pub proof fn lemma_partition_plans(
    plans: Seq<WorkPlan>,
    limit_bytes: u64,
    worker_count: u64,
    transfer_unit: u64,
)
    requires
        partition_post(plans, limit_bytes, worker_count, transfer_unit),
        1 <= worker_count,
        transfer_unit as int <= spec_segment_size(limit_bytes, worker_count),
    ensures
        plans.len() == worker_count,
        forall|k: int| 0 <= k < worker_count ==> (#[trigger] plans[k]).byte_offset % PAGE_SIZE == 0,
        forall|i: int, j: int|
            0 <= i <= j < worker_count ==> (#[trigger] plans[i]).byte_offset <= (
            #[trigger] plans[j]).byte_offset,
        forall|k: int|
            0 <= k < worker_count ==> (#[trigger] plans[k]).byte_bound + transfer_unit
                <= limit_bytes,
{
    let seg = spec_segment_size(limit_bytes, worker_count);
    assert forall|k: int| 0 <= k < worker_count implies (#[trigger] plans[k]).byte_offset
        % PAGE_SIZE == 0 by {
        lemma_segment_bounds(limit_bytes, worker_count, (k + 1) as u64);
        lemma_align_up_props(PAGE_SIZE, (k * seg) as u64);
    }
    assert forall|i: int, j: int| 0 <= i <= j < worker_count implies (
    #[trigger] plans[i]).byte_offset <= (#[trigger] plans[j]).byte_offset by {
        lemma_segment_bounds(limit_bytes, worker_count, (i + 1) as u64);
        lemma_segment_bounds(limit_bytes, worker_count, (j + 1) as u64);
        assert(i * seg <= j * seg) by (nonlinear_arith)
            requires 0 <= i <= j, seg >= 0;
        lemma_align_up_monotone(PAGE_SIZE, (i * seg) as u64, (j * seg) as u64);
    }
    assert forall|k: int| 0 <= k < worker_count implies (#[trigger] plans[k]).byte_bound
        + transfer_unit <= limit_bytes by {
        lemma_segment_bounds(limit_bytes, worker_count, (k + 1) as u64);
    }
}

/// Segment disjointness law: for two workers `i < j`, every byte worker `i`
/// may touch — up to its bound plus one full transfer unit — lies at or
/// before worker `j`'s start offset, so distinct workers' transfer ranges
/// never overlap.
pub proof fn lemma_segments_disjoint(
    plans: Seq<WorkPlan>,
    limit_bytes: u64,
    worker_count: u64,
    transfer_unit: u64,
    i: int,
    j: int,
)
    requires
        partition_post(plans, limit_bytes, worker_count, transfer_unit),
        1 <= worker_count,
        transfer_unit as int <= spec_segment_size(limit_bytes, worker_count),
        0 <= i < j < worker_count,
    ensures
        plans[i].byte_bound + transfer_unit <= plans[j].byte_offset,
{
    let seg = spec_segment_size(limit_bytes, worker_count);
    lemma_segment_bounds(limit_bytes, worker_count, (i + 1) as u64);
    lemma_segment_bounds(limit_bytes, worker_count, (j + 1) as u64);
    assert((i + 1) * seg <= j * seg) by (nonlinear_arith)
        requires 0 <= i < j, seg >= 0;
    assert(0 <= j * seg) by (nonlinear_arith)
        requires 0 <= j, seg >= 0;
    lemma_align_up_props(PAGE_SIZE, (j * seg) as u64);
}

/// Converts a byte limit given in gibibytes to bytes, refusing a quantity
/// whose byte count does not fit in 64 bits.
pub fn limit_from_gib(limit_gib: u64) -> (r: Option<u64>)
    ensures
        limit_gib * GIGABYTE <= u64::MAX ==> r == Some((limit_gib * GIGABYTE) as u64),
        limit_gib * GIGABYTE > u64::MAX ==> r is None,
{
    if limit_gib > u64::MAX / GIGABYTE {
        proof {
            assert(limit_gib * GIGABYTE > u64::MAX) by (nonlinear_arith)
                requires limit_gib > u64::MAX as int / GIGABYTE as int, GIGABYTE == 1073741824;
        }
        None
    } else {
        proof {
            assert(limit_gib * GIGABYTE <= u64::MAX) by (nonlinear_arith)
                requires limit_gib <= u64::MAX as int / GIGABYTE as int, GIGABYTE == 1073741824;
        }
        Some(limit_gib * GIGABYTE)
    }
}

} // verus!
