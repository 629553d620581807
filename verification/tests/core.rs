use diskbench::align::align_up;
use diskbench::aggregate::Aggregator;
use diskbench::geometry::{
    check_single_partition, classify_open_error, device_open_error, disk_descriptor, DeviceError,
    DiskDescriptor, OpenFailure, PreconditionError,
};
use diskbench::plan::{limit_from_gib, partition, WorkPlan};
use diskbench::text::{format_drive_num, parse_hex, parse_partition_count, HexParseError};
use diskbench::worker::{
    affinity_core, initial_file_position, IOOutcome, IoMode, IoStatus, WorkerProgress,
};
use diskbench::{GIGABYTE, MEGABYTE, PAGE_SIZE};

#[test]
fn align_up_concrete() {
    assert_eq!(align_up(4096, 4097), 8192);
    assert_eq!(align_up(4096, 4096), 4096);
    assert_eq!(align_up(1, 0), 0);
}

#[test]
fn align_up_samples_are_aligned_and_close() {
    for &(m, b) in &[(512u64, 1u64), (512, 513), (4096, 1), (1000, 999), (7, 20)] {
        let r = align_up(m, b);
        assert_eq!(r % m, 0);
        assert!(b <= r && r < b + m);
    }
    assert_eq!(align_up(512, MEGABYTE), MEGABYTE);
    assert_eq!(align_up(PAGE_SIZE, 1), PAGE_SIZE);
}

#[test]
fn partition_one_gib_four_workers() {
    let plans = partition(1_073_741_824, 4, 1_048_576);
    assert_eq!(plans.len(), 4);
    assert_eq!(
        plans[0],
        WorkPlan { worker_id: 1, byte_offset: 0, byte_bound: 267_386_880 }
    );
    assert_eq!(
        plans[3],
        WorkPlan { worker_id: 4, byte_offset: 805_306_368, byte_bound: 1_072_693_248 }
    );
}

#[test]
fn partition_uneven_limit() {
    let limit = 1_000_003u64;
    let plans = partition(limit, 3, 4096);
    assert_eq!(plans.len(), 3);
    let mut prev = 0u64;
    for p in &plans {
        assert_eq!(p.byte_offset % PAGE_SIZE, 0);
        assert!(p.byte_offset >= prev);
        prev = p.byte_offset;
        assert!(p.byte_bound + 4096 <= limit);
    }
    assert_eq!(plans[1].byte_offset, align_up(PAGE_SIZE, 333_334));
}

#[test]
fn partition_single_worker() {
    let plans = partition(GIGABYTE, 1, MEGABYTE);
    assert_eq!(plans.len(), 1);
    assert_eq!(plans[0].worker_id, 1);
    assert_eq!(plans[0].byte_offset, 0);
    assert_eq!(plans[0].byte_bound, GIGABYTE - MEGABYTE);
}

#[test]
fn limit_from_gib_converts_and_refuses_overflow() {
    assert_eq!(limit_from_gib(1), Some(GIGABYTE));
    assert_eq!(limit_from_gib(4), Some(4 * GIGABYTE));
    assert_eq!(limit_from_gib(17_179_869_183), Some(17_179_869_183 * GIGABYTE));
    assert_eq!(limit_from_gib(17_179_869_184), None);
    assert_eq!(limit_from_gib(u64::MAX), None);
}

#[test]
fn worker_positions() {
    let plan = WorkPlan { worker_id: 2, byte_offset: 8192, byte_bound: 32768 };
    assert_eq!(initial_file_position(&plan, IoMode::Read), 8192);
    assert_eq!(initial_file_position(&plan, IoMode::Write), 8192 + MEGABYTE);
    assert_eq!(affinity_core(5, 4), 1);
    assert_eq!(affinity_core(4, 4), 0);
}

fn run_simulated(plan: &WorkPlan, unit: u64, fail_on_transfer: Option<u32>) -> IOOutcome {
    let mut w = WorkerProgress::new(plan);
    let mut transfers: u32 = 0;
    while w.wants_transfer() {
        transfers += 1;
        match fail_on_transfer {
            Some(n) if n == transfers => w.record_transfer(false, 0, 1117),
            _ => w.record_transfer(true, unit, 0),
        }
    }
    w.outcome(7)
}

#[test]
fn worker_loop_finishes_and_covers_its_segment() {
    let plan = WorkPlan { worker_id: 1, byte_offset: 0, byte_bound: 4096 };
    let o = run_simulated(&plan, 1024, None);
    assert_eq!(o.worker_id, 1);
    assert_eq!(o.status, IoStatus::Finished);
    assert_eq!(o.elapsed_seconds, 7);
}

#[test]
fn worker_loop_stops_on_failure_with_code() {
    let plan = WorkPlan { worker_id: 3, byte_offset: 0, byte_bound: 8192 };
    let o = run_simulated(&plan, 1024, Some(2));
    assert_eq!(o.worker_id, 3);
    assert_eq!(o.status, IoStatus::Failed(1117));
}

#[test]
fn worker_transfer_advances_position() {
    let plan = WorkPlan { worker_id: 1, byte_offset: 4096, byte_bound: 12288 };
    let mut w = WorkerProgress::new(&plan);
    assert_eq!(w.position, 4096);
    assert!(w.wants_transfer());
    w.record_transfer(true, 4096, 0);
    assert_eq!(w.position, 8192);
    assert!(w.wants_transfer());
    w.record_transfer(true, 8192, 0);
    assert_eq!(w.position, 16384);
    assert!(!w.wants_transfer());
    assert_eq!(w.outcome(0).status, IoStatus::Finished);
}

#[test]
fn run_emits_one_outcome_per_worker_and_aggregator_terminates() {
    let worker_count = 4u64;
    let plans = partition(GIGABYTE, worker_count, MEGABYTE);
    let mut outcomes: Vec<IOOutcome> = Vec::new();
    for p in &plans {
        // Worker 2's first transfer is forced to fail; the rest run clean.
        let fail = if p.worker_id == 2 { Some(1) } else { None };
        outcomes.push(run_simulated(p, 128 * MEGABYTE, fail));
    }
    assert_eq!(outcomes.len(), worker_count as usize);
    let mut agg = Aggregator::new(worker_count);
    let consumed = agg.drain(&outcomes);
    assert_eq!(consumed, 4);
    assert!(agg.is_done());
    assert_eq!(agg.finished, 3);
    assert_eq!(agg.failed, 1);
}

#[test]
fn aggregator_counts_failures_toward_completion() {
    let mut agg = Aggregator::new(2);
    let failed = IOOutcome { worker_id: 1, status: IoStatus::Failed(5), elapsed_seconds: 0 };
    let finished = IOOutcome { worker_id: 2, status: IoStatus::Finished, elapsed_seconds: 3 };
    assert!(!agg.record(&failed));
    assert!(!agg.is_done());
    assert!(agg.record(&finished));
    assert!(agg.is_done());
    assert_eq!(agg.finished, 1);
    assert_eq!(agg.failed, 1);
}

#[test]
fn aggregator_drain_stops_at_expected_count() {
    let o = IOOutcome { worker_id: 1, status: IoStatus::Finished, elapsed_seconds: 0 };
    let outcomes = vec![o, o, o];
    let mut agg = Aggregator::new(2);
    assert_eq!(agg.drain(&outcomes), 2);
    assert!(agg.is_done());
    let mut short = Aggregator::new(5);
    assert_eq!(short.drain(&outcomes), 3);
    assert!(!short.is_done());
    assert_eq!(short.outstanding, 2);
}

#[test]
fn disk_descriptor_derivation() {
    let d = disk_descriptor(GIGABYTE, 2_097_152).unwrap();
    assert_eq!(
        d,
        DiskDescriptor { total_bytes: GIGABYTE, sector_bytes: 512, transfer_unit_bytes: MEGABYTE }
    );
    // A sector size that does not divide the nominal chunk size is rounded
    // up to the next whole sector.
    let d2 = disk_descriptor(786_432_000, 1_536_000).unwrap();
    assert_eq!(d2.sector_bytes, 512);
    let d3 = disk_descriptor(300_000, 100).unwrap();
    assert_eq!(d3.sector_bytes, 3000);
    assert_eq!(d3.transfer_unit_bytes % 3000, 0);
    assert!(d3.transfer_unit_bytes >= MEGABYTE);
}

#[test]
fn disk_descriptor_probe_is_idempotent() {
    let a = disk_descriptor(GIGABYTE, 2_097_152);
    let b = disk_descriptor(GIGABYTE, 2_097_152);
    assert_eq!(a, b);
    let e1 = disk_descriptor(1001, 2);
    let e2 = disk_descriptor(1001, 2);
    assert_eq!(e1, e2);
}

#[test]
fn disk_descriptor_rejects_bad_geometry() {
    assert_eq!(disk_descriptor(GIGABYTE, 0), Err(DeviceError::GeometryQueryError));
    assert_eq!(disk_descriptor(1001, 2), Err(DeviceError::GeometryQueryError));
    assert_eq!(disk_descriptor(10, 20), Err(DeviceError::GeometryQueryError));
}

#[test]
fn open_error_classification() {
    assert_eq!(classify_open_error(2), OpenFailure::NotFound);
    assert_eq!(classify_open_error(5), OpenFailure::AccessDenied);
    assert_eq!(classify_open_error(1117), OpenFailure::Os(1117));
}

#[test]
fn access_denied_carries_its_classification() {
    let f = classify_open_error(5);
    assert_eq!(f, OpenFailure::AccessDenied);
    assert_eq!(device_open_error(5), DeviceError::DeviceOpenError(OpenFailure::AccessDenied));
    assert_eq!(device_open_error(2), DeviceError::DeviceOpenError(OpenFailure::NotFound));
    assert_eq!(device_open_error(31), DeviceError::DeviceOpenError(OpenFailure::Os(31)));
    assert_eq!(
        f.message(),
        "could not open handle because access was denied - do you have administrator privileges?"
    );
    assert_eq!(
        classify_open_error(2).message(),
        "could not open handle because the device was not found"
    );
}

#[test]
fn single_partition_gate() {
    assert!(check_single_partition(0).is_ok());
    assert!(check_single_partition(1).is_ok());
    assert_eq!(check_single_partition(2), Err(PreconditionError::MultiplePartitions));
    assert_eq!(check_single_partition(255), Err(PreconditionError::MultiplePartitions));
}

#[test]
fn drive_path_formatting() {
    assert_eq!(format_drive_num(0), "\\\\.\\PhysicalDrive0");
    assert_eq!(format_drive_num(3), "\\\\.\\PhysicalDrive3");
    assert_eq!(format_drive_num(42), "\\\\.\\PhysicalDrive42");
    assert_eq!(format_drive_num(255), "\\\\.\\PhysicalDrive255");
    assert_eq!(format_drive_num(100), "\\\\.\\PhysicalDrive100");
    assert_eq!(format_drive_num(10), "\\\\.\\PhysicalDrive10");
}

#[test]
fn hex_parsing_values() {
    assert_eq!(parse_hex("0"), Ok(0));
    assert_eq!(parse_hex("1f"), Ok(31));
    assert_eq!(parse_hex("DeadBeef"), Ok(0xdead_beef));
    assert_eq!(parse_hex("+a"), Ok(10));
    assert_eq!(parse_hex("ffffffffffffffff"), Ok(u64::MAX));
    assert_eq!(parse_hex("0000000000000000001"), Ok(1));
}

#[test]
fn hex_parsing_errors() {
    assert_eq!(parse_hex(""), Err(HexParseError::Empty));
    assert_eq!(parse_hex("+"), Err(HexParseError::InvalidDigit));
    assert_eq!(parse_hex("12g4"), Err(HexParseError::InvalidDigit));
    assert_eq!(parse_hex("0x12"), Err(HexParseError::InvalidDigit));
    assert_eq!(parse_hex("10000000000000000"), Err(HexParseError::Overflow));
}

#[test]
fn partition_count_parsing() {
    assert_eq!(parse_partition_count("1"), Some(1));
    assert_eq!(parse_partition_count(" 1\r\n"), Some(1));
    assert_eq!(parse_partition_count("\t 12 \n"), Some(12));
    assert_eq!(parse_partition_count("255"), Some(255));
    assert_eq!(parse_partition_count("0007"), Some(7));
    assert_eq!(parse_partition_count("256"), None);
    assert_eq!(parse_partition_count(""), None);
    assert_eq!(parse_partition_count("  \r\n"), None);
    assert_eq!(parse_partition_count("12a"), None);
    assert_eq!(parse_partition_count("-1"), None);
}
