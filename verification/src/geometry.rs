//! Device geometry: deriving the disk descriptor — capacity, sector size,
//! and transfer-unit size — from the capacity and sector count that the
//! device reports. Opening the device and querying it are operating-system
//! work done outside the library; this module owns the arithmetic and its
//! invariants.

use vstd::prelude::*;
use crate::align::{align_up, spec_align_up, lemma_align_up_props};
use crate::MEGABYTE;

verus! {

/// The geometry of one device: its total capacity, its physical sector
/// size, and the per-transfer chunk size derived from them.
#[derive(Clone, Copy, Debug, PartialEq, Eq, Structural)]
pub struct DiskDescriptor {
    pub total_bytes: u64,
    pub sector_bytes: u64,
    pub transfer_unit_bytes: u64,
}

/// Why a device could not be opened: the path names no device, access was
/// refused, or the operating system reported some other error code.
#[derive(Clone, Copy, Debug, PartialEq, Eq, Structural)]
pub enum OpenFailure {
    NotFound,
    AccessDenied,
    Os(u32),
}

/// A fatal per-device error: the device could not be opened, or the
/// geometry it reported cannot be worked with.
#[derive(Clone, Copy, Debug, PartialEq, Eq, Structural)]
pub enum DeviceError {
    DeviceOpenError(OpenFailure),
    GeometryQueryError,
}

/// The whole-run gate that refuses destructive testing on a device
/// carrying live filesystems.
#[derive(Clone, Copy, Debug, PartialEq, Eq, Structural)]
pub enum PreconditionError {
    MultiplePartitions,
}

/// How the operating system's error code from a failed device open is
/// classified: code 2 means the device was not found, code 5 that access
/// was denied; every other code is carried through opaquely.
pub open spec fn spec_classify_open_error(code: u32) -> OpenFailure {
    if code == 2 {
        OpenFailure::NotFound
    } else if code == 5 {
        OpenFailure::AccessDenied
    } else {
        OpenFailure::Os(code)
    }
}

/// Classifies the operating system's error code from a failed device open.
pub fn classify_open_error(code: u32) -> (f: OpenFailure)
    ensures
        f == spec_classify_open_error(code),
{
    if code == 2 {
        OpenFailure::NotFound
    } else if code == 5 {
        OpenFailure::AccessDenied
    } else {
        OpenFailure::Os(code)
    }
}

/// The per-device error for a failed open: the operating system's error
/// code, classified, carried as the open-failure cause — a simulated
/// access-denied code yields the access-denied classification, never an
/// opaque one.
pub fn device_open_error(code: u32) -> (e: DeviceError)
    ensures
        e == DeviceError::DeviceOpenError(spec_classify_open_error(code)),
        code == 5 ==> e == DeviceError::DeviceOpenError(OpenFailure::AccessDenied),
{
    DeviceError::DeviceOpenError(classify_open_error(code))
}

impl OpenFailure {
    /// A human-readable cause for the failed open. For an opaque code the
    /// caller appends the code itself, which this value carries.
    pub fn message(&self) -> (m: String)
        ensures
            self is NotFound ==> m@ == "could not open handle because the device was not found"@,
            self is AccessDenied ==> m@
                == "could not open handle because access was denied - do you have administrator privileges?"@,
            self matches OpenFailure::Os(_) ==> m@ == "got invalid handle: error code"@,
    {
        match self {
            OpenFailure::NotFound => "could not open handle because the device was not found".to_owned(),
            OpenFailure::AccessDenied => "could not open handle because access was denied - do you have administrator privileges?".to_owned(),
            OpenFailure::Os(_) => "got invalid handle: error code".to_owned(),
        }
    }
}

/// Refuses to run against a device that reports more than one partition,
/// so that no device carrying live filesystems is read or overwritten.
pub fn check_single_partition(partitions: u8) -> (r: Result<(), PreconditionError>)
    ensures
        r is Ok <==> partitions <= 1,
        partitions > 1 ==> r == Err::<(), PreconditionError>(PreconditionError::MultiplePartitions),
{
    if partitions > 1 {
        Err(PreconditionError::MultiplePartitions)
    } else {
        Ok(())
    }
}

impl DiskDescriptor {
    /// The descriptor's invariant: the transfer unit is a whole, positive
    /// number of sectors.
    pub open spec fn wf(self) -> bool {
        &&& self.sector_bytes >= 1
        &&& self.transfer_unit_bytes % self.sector_bytes == 0
        &&& self.transfer_unit_bytes >= self.sector_bytes
    }
}

/// Whether a reported geometry is usable: at least one sector, a capacity
/// that is a whole number of sectors, and a sector size small enough that
/// rounding the transfer unit up from it stays within 64 bits.
pub open spec fn spec_geometry_ok(total_bytes: u64, sector_count: u64) -> bool {
    &&& sector_count >= 1
    &&& total_bytes % sector_count == 0
    &&& total_bytes / sector_count >= 1
    &&& spec_align_up((total_bytes / sector_count) as u64, MEGABYTE) <= u64::MAX
}

/// The descriptor derived from a usable geometry: the sector size is the
/// capacity divided by the sector count, and the transfer unit is the
/// nominal chunk size rounded up to a whole number of sectors.
pub open spec fn spec_descriptor(total_bytes: u64, sector_count: u64) -> DiskDescriptor
    recommends
        spec_geometry_ok(total_bytes, sector_count),
{
    let sector_bytes = (total_bytes / sector_count) as u64;
    DiskDescriptor {
        total_bytes,
        sector_bytes,
        transfer_unit_bytes: spec_align_up(sector_bytes, MEGABYTE) as u64,
    }
}

/// Derives the disk descriptor from the capacity and sector count the
/// device reported. Succeeds exactly on usable geometries; the result then
/// satisfies the descriptor invariant. A zero sector count, a capacity that
/// is not a whole number of sectors, a zero sector size, or a sector size
/// too large to round the transfer unit within 64 bits is refused as a
/// failed geometry query.
pub fn disk_descriptor(total_bytes: u64, sector_count: u64) -> (r: Result<
    DiskDescriptor,
    DeviceError,
>)
    ensures
        spec_geometry_ok(total_bytes, sector_count) ==> r == Ok::<DiskDescriptor, DeviceError>(
            spec_descriptor(total_bytes, sector_count),
        ),
        !spec_geometry_ok(total_bytes, sector_count) ==> r == Err::<DiskDescriptor, DeviceError>(
            DeviceError::GeometryQueryError,
        ),
        r matches Ok(d) ==> d.wf() && d.total_bytes == total_bytes,
{
    if sector_count == 0 {
        return Err(DeviceError::GeometryQueryError);
    }
    if total_bytes % sector_count != 0 {
        return Err(DeviceError::GeometryQueryError);
    }
    let sector_bytes = total_bytes / sector_count;
    if sector_bytes == 0 {
        return Err(DeviceError::GeometryQueryError);
    }
    proof {
        lemma_align_up_props(sector_bytes, MEGABYTE);
        assert(MEGABYTE % sector_bytes == 0 ==> sector_bytes <= MEGABYTE) by (nonlinear_arith)
            requires
                sector_bytes >= 1,
                MEGABYTE == 1048576,
        ;
    }
    if sector_bytes - MEGABYTE % sector_bytes > u64::MAX - MEGABYTE {
        // Rounding the nominal chunk size up to this sector size would
        // leave the 64-bit range.
        return Err(DeviceError::GeometryQueryError);
    }
    let transfer_unit_bytes = align_up(sector_bytes, MEGABYTE);
    proof {
        assert(transfer_unit_bytes >= sector_bytes) by (nonlinear_arith)
            requires
                transfer_unit_bytes >= 1,
                sector_bytes >= 1,
                transfer_unit_bytes % sector_bytes == 0,
        ;
    }
    Ok(DiskDescriptor { total_bytes, sector_bytes, transfer_unit_bytes })
}

/// Geometry Prober idempotence law: probing is a function of the reported
/// geometry alone, so two probes of an unchanged device — the same capacity
/// and sector count — yield the same outcome, descriptor or error alike.
pub proof fn lemma_probe_idempotent(
    total_bytes: u64,
    sector_count: u64,
    r1: Result<DiskDescriptor, DeviceError>,
    r2: Result<DiskDescriptor, DeviceError>,
)
    requires
        r1 == (if spec_geometry_ok(total_bytes, sector_count) {
            Ok::<DiskDescriptor, DeviceError>(spec_descriptor(total_bytes, sector_count))
        } else {
            Err::<DiskDescriptor, DeviceError>(DeviceError::GeometryQueryError)
        }),
        r2 == (if spec_geometry_ok(total_bytes, sector_count) {
            Ok::<DiskDescriptor, DeviceError>(spec_descriptor(total_bytes, sector_count))
        } else {
            Err::<DiskDescriptor, DeviceError>(DeviceError::GeometryQueryError)
        }),
    ensures
        r1 == r2,
{
}

} // verus!
