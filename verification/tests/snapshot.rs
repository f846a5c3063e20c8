use std::collections::HashMap;

use eryx_host::snapshot::{
    HostMemoryRead, HostMemoryRegionSnapshot, HostMemoryRestoreStats, HostMemoryWrite,
};
use eryx_host::tracker::HostMemoryTracker;

fn snapshot(id: u64, byte_capacity: usize, bytes: &[u8]) -> HostMemoryRegionSnapshot {
    HostMemoryRegionSnapshot { id, byte_capacity, bytes: bytes.to_vec() }
}

/// Regions 1 (three bytes at 100, capacity 8), 2 (empty, capacity 4), 3 (two bytes at 300,
/// capacity 2).
fn tracker() -> HostMemoryTracker {
    let mut tracker = HostMemoryTracker::default();
    tracker.record_allocation(100, 3, 8, 8, 8, 0);
    tracker.record_allocation(200, 0, 4, 4, 4, 0);
    tracker.record_allocation(300, 2, 2, 2, 2, 0);
    tracker
}

fn contents() -> HashMap<u64, Vec<u8>> {
    HashMap::from([(1, b"abc".to_vec()), (3, b"xy".to_vec())])
}

#[test]
fn reads_leave_empty_regions_out() {
    let mut reads = tracker().snapshot_reads();
    reads.sort_by_key(|r| r.id);
    assert_eq!(
        reads,
        vec![
            HostMemoryRead { id: 1, base_addr: 100, byte_size: 3 },
            HostMemoryRead { id: 3, base_addr: 300, byte_size: 2 },
        ]
    );
}

#[test]
fn a_snapshot_holds_every_region_once() {
    let mut snapshots = tracker().snapshot_live_regions(contents());
    snapshots.sort_by_key(|s| s.id);
    assert_eq!(snapshots, vec![snapshot(1, 8, b"abc"), snapshot(2, 4, b""), snapshot(3, 2, b"xy")]);
}

#[test]
fn a_snapshot_is_restored_where_it_was_taken() {
    let tracker = tracker();
    let mut snapshots = tracker.snapshot_live_regions(contents());
    snapshots.sort_by_key(|s| s.id);
    let expected = vec![
        HostMemoryWrite { base_addr: 100, snapshot: 0 },
        HostMemoryWrite { base_addr: 300, snapshot: 2 },
    ];
    let stats = HostMemoryRestoreStats { restored_regions: 3, restored_bytes: 5 };
    let restore = tracker.restore_live_regions(&snapshots);
    assert_eq!(restore.outcome, Ok(stats));
    assert_eq!(restore.writes, expected);
    let restore = tracker.restore_live_regions_growing(&snapshots);
    assert_eq!(restore.outcome, Ok(stats));
    assert_eq!(restore.writes, expected);
}

#[test]
fn nothing_to_restore_is_a_success() {
    let restore = tracker().restore_live_regions(&[]);
    assert_eq!(restore.outcome, Ok(HostMemoryRestoreStats::default()));
    assert!(restore.writes.is_empty());
}

#[test]
fn an_exact_restore_refuses_other_shapes() {
    let message = |s| tracker().restore_live_regions(&[s]).outcome.unwrap_err();
    assert_eq!(message(snapshot(9, 8, b"abc")), "linear-memory region 9 is not live");
    assert_eq!(
        message(snapshot(1, 8, b"abcd")),
        "linear-memory region 1 size mismatch: snapshot=4 live=3"
    );
    assert_eq!(
        message(snapshot(1, 16, b"abc")),
        "linear-memory region 1 capacity mismatch: snapshot=16 live=8"
    );
    // The size is looked at first.
    assert_eq!(
        message(snapshot(1, 16, b"ab")),
        "linear-memory region 1 size mismatch: snapshot=2 live=3"
    );
}

#[test]
fn a_growing_restore_refuses_to_grow() {
    let message = |s| tracker().restore_live_regions_growing(&[s]).outcome.unwrap_err();
    assert_eq!(message(snapshot(9, 8, b"abc")), "linear-memory region 9 is not live");
    assert_eq!(
        message(snapshot(1, 16, b"ab")),
        "linear-memory region 1 capacity mismatch: snapshot=16 live=8"
    );
    assert_eq!(
        message(snapshot(1, 8, b"123456789")),
        "linear-memory region 1 snapshot size 9 exceeds live capacity 8"
    );
    assert_eq!(
        message(snapshot(1, 8, b"ab")),
        "linear-memory region 1 cannot shrink live memory: snapshot=2 live=3"
    );
    assert_eq!(
        message(snapshot(1, 8, b"abcd")),
        "metadata-only live-region grow is unsupported: it changes tracker state \
         without updating Wasmtime VM memory length; create the restore target with \
         TrackingMemoryCreator::new_with_initial_size_floor instead"
    );
}

#[test]
fn snapshots_before_a_refused_one_are_restored() {
    let restore =
        tracker().restore_live_regions(&[snapshot(3, 2, b"pq"), snapshot(9, 1, b""), snapshot(1, 8, b"abc")]);
    assert_eq!(restore.outcome, Err("linear-memory region 9 is not live".to_string()));
    assert_eq!(restore.writes, vec![HostMemoryWrite { base_addr: 300, snapshot: 0 }]);
}

#[test]
fn message_numbers_are_decimal() {
    let mut tracker = HostMemoryTracker::default();
    tracker.record_allocation(1, 0, 1_020_304_050, 0, 0, 0);
    let restore = tracker.restore_live_regions(&[snapshot(1, usize::MAX, b"")]);
    assert_eq!(
        restore.outcome,
        Err(format!(
            "linear-memory region 1 capacity mismatch: snapshot={} live=1020304050",
            usize::MAX
        ))
    );
}
