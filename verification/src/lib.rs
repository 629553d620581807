//! Verified core of a raw-device throughput benchmark.
//!
//! The library computes everything the benchmark decides: device geometry
//! derivation, alignment arithmetic, partitioning of the device's byte range
//! across workers, the per-worker transfer-loop state machine, completion
//! aggregation, and the small string/number transforms around them. The
//! operating-system work itself (opening device handles, issuing transfers,
//! spawning threads) lives outside the library and feeds it plain values.

use vstd::prelude::*;

pub mod aggregate;
pub mod align;
pub mod geometry;
pub mod plan;
pub mod text;
pub mod worker;

verus! {

/// One mebibyte: the nominal target size of a single transfer unit.
pub const MEGABYTE: u64 = 1048576;

/// One gibibyte: the unit in which a byte limit is given at the interface.
pub const GIGABYTE: u64 = 1073741824;

/// The page granularity that worker start offsets are snapped to.
pub const PAGE_SIZE: u64 = 4096;

} // verus!
