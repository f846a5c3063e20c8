use std::collections::HashMap;

use eryx_host::align::{is_power_of_two, page_size, round_up};
use eryx_host::growth::GrowRequest;
use eryx_host::memory::{TrackedLinearMemory, TrackingMemoryCreator, Unmapping};
use eryx_host::snapshot::HostMemoryRead;
use eryx_host::tracker::{add_with_peak, HostMemoryStats, HostMemoryTracker, RegionRecord};

const PAGE: usize = 4096;

/// A host whose memory is one array; address `BASE + i` is its byte `i`.
struct Host {
    bytes: Vec<u8>,
    next: usize,
}

const BASE: usize = 0x10_0000;

impl Host {
    fn new() -> Host {
        Host { bytes: vec![0; 0x10_0000], next: BASE }
    }

    fn map(&mut self, len: usize) -> Result<usize, String> {
        let base = self.next;
        self.next += len;
        Ok(base)
    }

    fn write(&mut self, address: usize, bytes: &[u8]) {
        self.bytes[address - BASE..address - BASE + bytes.len()].copy_from_slice(bytes);
    }

    fn read(&self, reads: Vec<HostMemoryRead>) -> HashMap<u64, Vec<u8>> {
        reads
            .into_iter()
            .map(|r| (r.id, self.bytes[r.base_addr - BASE..r.base_addr - BASE + r.byte_size].to_vec()))
            .collect()
    }
}

fn make(
    creator: &mut TrackingMemoryCreator,
    host: &mut Host,
    minimum: usize,
    maximum: Option<usize>,
    reserved: Option<usize>,
    guard: usize,
) -> Result<TrackedLinearMemory, String> {
    let layout = creator.new_memory(minimum, maximum, reserved, guard, Ok(PAGE))?;
    let mapped = layout.mapped(host.map(layout.mapped_bytes))?;
    creator.finish_memory(mapped, Ok(())).map_err(|failed| failed.message)
}

fn grow(
    creator: &mut TrackingMemoryCreator,
    memory: &TrackedLinearMemory,
    new_size: usize,
) -> Result<(), String> {
    let request = memory.grow_to(creator.tracker(), new_size, Ok(PAGE))?;
    creator.tracker_mut().complete_growth(request, Ok(()))
}

#[test]
fn tracking_memory_creator_copies_live_region() {
    let mut host = Host::new();
    let mut creator = TrackingMemoryCreator::new();

    let memory = make(&mut creator, &mut host, 4096, Some(8192), Some(8192), 4096)
        .expect("memory allocation should succeed");

    host.write(memory.as_ptr(), b"rlm");

    let contents = host.read(creator.tracker().snapshot_reads());
    let snapshots = creator.tracker().snapshot_live_regions(contents);
    assert_eq!(snapshots.len(), 1);
    assert_eq!(&snapshots[0].bytes[..3], b"rlm");
    assert_eq!(creator.tracker().stats().allocations, 1);
    assert_eq!(creator.tracker().stats().deallocations, 0);

    grow(&mut creator, &memory, 8192).expect("grow should fit reserved capacity");
    assert_eq!(creator.tracker().stats().grow_count, 1);

    let unmapping = memory.release(creator.tracker_mut());
    assert_eq!(unmapping, Unmapping { base_addr: BASE, mapped_bytes: 12288 });
    assert_eq!(creator.tracker().stats().deallocations, 1);
    assert!(creator.tracker().live_regions().is_empty());
}

#[test]
fn tracking_memory_creator_can_start_at_initial_size_floor() {
    let mut host = Host::new();
    let mut creator = TrackingMemoryCreator::new_with_initial_size_floor(8192);

    let memory = make(&mut creator, &mut host, 4096, Some(16384), Some(16384), 4096)
        .expect("memory allocation should succeed");

    assert_eq!(memory.byte_size(creator.tracker()), 8192);
    assert_eq!(creator.tracker().live_regions()[0].byte_size, 8192);
    assert!(creator.tracker().live_regions()[0].accessible_bytes >= 8192);
}

#[test]
fn stats_follow_the_life_of_a_memory() {
    let mut host = Host::new();
    let mut creator = TrackingMemoryCreator::default();
    assert_eq!(creator.tracker().stats(), HostMemoryStats::default());

    let memory = make(&mut creator, &mut host, 4096, None, Some(3 * PAGE), PAGE).unwrap();
    assert_eq!(memory.id(), 1);
    assert_eq!(memory.byte_capacity(creator.tracker()), 3 * PAGE);
    let made = HostMemoryStats {
        allocations: 1,
        deallocations: 0,
        mapped_bytes: 4 * PAGE,
        peak_mapped_bytes: 4 * PAGE,
        accessible_bytes: PAGE,
        peak_accessible_bytes: PAGE,
        grow_count: 0,
    };
    assert_eq!(creator.tracker().stats(), made);

    grow(&mut creator, &memory, PAGE + 1).unwrap();
    let grown = HostMemoryStats {
        accessible_bytes: 2 * PAGE,
        peak_accessible_bytes: 2 * PAGE,
        grow_count: 1,
        ..made
    };
    assert_eq!(creator.tracker().stats(), grown);
    let region = creator.tracker().live_regions()[0];
    assert_eq!((region.byte_size, region.accessible_bytes), (PAGE + 1, 2 * PAGE));
    assert_eq!((region.base_addr, region.mapped_bytes, region.guard_bytes), (BASE, 4 * PAGE, PAGE));

    let _ = memory.release(creator.tracker_mut());
    let gone = HostMemoryStats {
        deallocations: 1,
        mapped_bytes: 0,
        accessible_bytes: 0,
        ..grown
    };
    assert_eq!(creator.tracker().stats(), gone);
}

#[test]
fn growth_past_the_capacity_is_refused() {
    let mut host = Host::new();
    let mut creator = TrackingMemoryCreator::new();
    let memory = make(&mut creator, &mut host, 4096, Some(8192), Some(8192), 0).unwrap();
    let before = creator.tracker().stats();
    assert_eq!(
        grow(&mut creator, &memory, 8193),
        Err("linear memory grow to 8193 exceeds reserved capacity 8192".to_string())
    );
    assert_eq!(creator.tracker().stats(), before);
    assert_eq!(memory.byte_size(creator.tracker()), 4096);
}

#[test]
fn growth_needs_a_page_size_and_protection() {
    let mut host = Host::new();
    let mut creator = TrackingMemoryCreator::new();
    let memory = make(&mut creator, &mut host, 4096, Some(8192), Some(8192), 0).unwrap();
    assert_eq!(
        memory.grow_to(creator.tracker(), 8192, Err("no page size".to_string())),
        Err("no page size".to_string())
    );
    // The capacity is looked at before the page size.
    assert_eq!(
        memory.grow_to(creator.tracker(), 9000, Err("no page size".to_string())),
        Err("linear memory grow to 9000 exceeds reserved capacity 8192".to_string())
    );

    let request = memory.grow_to(creator.tracker(), 5000, Ok(PAGE)).unwrap();
    assert_eq!(
        request,
        GrowRequest {
            id: 1,
            base_addr: BASE,
            new_size: 5000,
            accessible_bytes: 8192,
            protect: true
        }
    );
    let before = creator.tracker().stats();
    assert_eq!(
        creator.tracker_mut().complete_growth(request, Err("denied".to_string())),
        Err("mprotect failed: denied".to_string())
    );
    assert_eq!(creator.tracker().stats(), before);

    // Within the accessible pages nothing is protected, and no error is looked at.
    let request = memory.grow_to(creator.tracker(), 100, Ok(PAGE)).unwrap();
    assert!(!request.protect);
    assert_eq!(creator.tracker_mut().complete_growth(request, Err("denied".to_string())), Ok(()));
    assert_eq!(memory.byte_size(creator.tracker()), 100);
    assert_eq!(creator.tracker().stats().grow_count, 1);
}

#[test]
fn going_to_fewer_accessible_bytes_keeps_the_aggregate() {
    let mut tracker = HostMemoryTracker::default();
    let id = tracker.record_allocation(BASE, 2 * PAGE, 2 * PAGE, 2 * PAGE, 3 * PAGE, PAGE);
    tracker.record_growth_locked(id, 10, PAGE);
    assert_eq!(tracker.stats().accessible_bytes, 2 * PAGE);
    assert_eq!(tracker.region(id).unwrap().accessible_bytes, PAGE);
    tracker.record_growth_locked(id, 2 * PAGE, 2 * PAGE);
    assert_eq!(tracker.stats().accessible_bytes, 3 * PAGE);
    tracker.record_deallocation(id);
    assert_eq!(tracker.stats().accessible_bytes, PAGE);
    assert_eq!(tracker.stats().mapped_bytes, 0);
}

#[test]
fn going_to_a_smaller_size_gives_up_no_page() {
    let mut host = Host::new();
    let mut creator = TrackingMemoryCreator::new();
    let memory = make(&mut creator, &mut host, 8192, Some(16384), Some(16384), 0).unwrap();
    let request = memory.grow_to(creator.tracker(), 4096, Ok(PAGE)).unwrap();
    assert_eq!(
        request,
        GrowRequest {
            id: 1,
            base_addr: BASE,
            new_size: 4096,
            accessible_bytes: 8192,
            protect: false
        }
    );
    assert_eq!(creator.tracker_mut().complete_growth(request, Ok(())), Ok(()));
    let region = creator.tracker().region(memory.id()).unwrap();
    assert_eq!((region.byte_size, region.accessible_bytes), (4096, 8192));
    assert_eq!(creator.tracker().live_regions()[0].accessible_bytes, 8192);
    assert_eq!(creator.tracker().stats().accessible_bytes, 8192);

    // Back to the first size no page is new.
    grow(&mut creator, &memory, 8192).unwrap();
    assert_eq!(creator.tracker().region(memory.id()).unwrap().accessible_bytes, 8192);
    assert_eq!(creator.tracker().stats().accessible_bytes, 8192);
    grow(&mut creator, &memory, 0).unwrap();
    grow(&mut creator, &memory, 8193).unwrap();
    assert_eq!(creator.tracker().region(memory.id()).unwrap().accessible_bytes, 12288);
    assert_eq!(creator.tracker().stats().accessible_bytes, 12288);
}

#[test]
fn regions_are_whole_pages_within_what_is_mapped() {
    let mut host = Host::new();
    let mut creator = TrackingMemoryCreator::new();
    let requests = [
        (0, None, None, 0),
        (1, None, None, 1),
        (5000, Some(9000), Some(20_000), 100),
        (4096, Some(4096), None, 8192),
    ];
    for (minimum, maximum, reserved, guard) in requests {
        make(&mut creator, &mut host, minimum, maximum, reserved, guard).unwrap();
    }
    let mut accessible = 0;
    for region in creator.tracker().live_regions() {
        assert!(region.byte_size <= region.accessible_bytes);
        assert!(region.accessible_bytes <= region.byte_capacity);
        assert_eq!(region.accessible_bytes % PAGE, 0);
        assert_eq!(region.byte_capacity % PAGE, 0);
        assert_eq!(region.guard_bytes % PAGE, 0);
        assert_eq!(region.mapped_bytes, PAGE.max(region.byte_capacity + region.guard_bytes));
        accessible += region.accessible_bytes;
    }
    let stats = creator.tracker().stats();
    assert_eq!(stats.accessible_bytes, accessible);
    assert!(stats.accessible_bytes <= stats.mapped_bytes);
}

#[test]
fn a_grown_and_dropped_memory_leaves_the_counts_as_they_were() {
    let mut host = Host::new();
    let mut creator = TrackingMemoryCreator::new();
    let _kept = make(&mut creator, &mut host, 4096, None, None, 4096).unwrap();
    let before = creator.tracker().stats();
    let memory = make(&mut creator, &mut host, 4096, None, Some(16384), 4096).unwrap();
    for size in [8192, 100, 12_000, 0] {
        grow(&mut creator, &memory, size).unwrap();
    }
    let _ = memory.release(creator.tracker_mut());
    assert_eq!(
        creator.tracker().stats(),
        HostMemoryStats {
            allocations: 2,
            deallocations: 1,
            grow_count: 4,
            peak_mapped_bytes: before.mapped_bytes + 20_480,
            peak_accessible_bytes: 4096 + 12_288,
            ..before
        }
    );
    assert_eq!(creator.tracker().live_regions().len(), 1);
}

#[test]
fn deallocation_of_an_unknown_region_is_ignored() {
    let mut tracker = HostMemoryTracker::default();
    let first = tracker.record_allocation(BASE, 1, 2, 3, 4, 5);
    let second = tracker.record_allocation(BASE, 10, 20, 30, 40, 50);
    assert_eq!((first, second), (1, 2));
    assert_eq!(
        tracker.region(2),
        Some(RegionRecord {
            base_addr: BASE,
            byte_size: 10,
            byte_capacity: 20,
            accessible_bytes: 30,
            mapped_bytes: 40,
            guard_bytes: 50
        })
    );
    tracker.record_deallocation(first);
    let stats = tracker.stats();
    assert_eq!((stats.mapped_bytes, stats.peak_mapped_bytes), (40, 44));
    tracker.record_deallocation(first);
    tracker.record_deallocation(77);
    assert_eq!(tracker.stats(), stats);
    // Ids are not handed out again.
    assert_eq!(tracker.record_allocation(BASE, 0, 0, 0, 0, 0), 3);
    let mut ids: Vec<u64> = tracker.live_regions().iter().map(|r| r.id).collect();
    ids.sort();
    assert_eq!(ids, vec![2, 3]);
}

#[test]
fn peaks_are_raised_only_by_higher_values() {
    let (mut current, mut peak) = (5, 20);
    add_with_peak(&mut current, &mut peak, 10);
    assert_eq!((current, peak), (15, 20));
    add_with_peak(&mut current, &mut peak, 10);
    assert_eq!((current, peak), (25, 25));
}

#[test]
fn mapping_failures_are_told_apart() {
    let creator = TrackingMemoryCreator::new();
    let layout = creator.new_memory(4096, None, None, 4096, Ok(PAGE)).unwrap();
    assert_eq!(
        layout.mapped(Err("out of memory".to_string())),
        Err("mmap failed for 8192 bytes: out of memory".to_string())
    );
    assert_eq!(layout.mapped(Ok(0)), Err("mmap returned null".to_string()));
    assert_eq!(
        creator.new_memory(4096, None, None, 4096, Err("unknown".to_string())),
        Err("unknown".to_string())
    );
}

#[test]
fn failed_protection_gives_the_mapping_back() {
    let mut creator = TrackingMemoryCreator::new();
    let layout = creator.new_memory(4096, None, None, 4096, Ok(PAGE)).unwrap();
    let mapped = layout.mapped(Ok(BASE)).unwrap();
    assert_eq!(mapped.protection(), Some(4096));
    let failed = creator.finish_memory(mapped, Err("denied".to_string())).unwrap_err();
    assert_eq!(failed.message, "mprotect failed: denied");
    assert_eq!(failed.unmapping, Unmapping { base_addr: BASE, mapped_bytes: 8192 });
    assert_eq!(creator.tracker().stats(), HostMemoryStats::default());

    // An empty memory asks for no protection.
    let layout = creator.new_memory(0, None, None, 0, Ok(PAGE)).unwrap();
    assert_eq!(layout.mapped_bytes, PAGE);
    let mapped = layout.mapped(Ok(BASE)).unwrap();
    assert_eq!(mapped.protection(), None);
    assert!(creator.finish_memory(mapped, Err("denied".to_string())).is_ok());
}

#[test]
fn page_size_is_checked() {
    assert_eq!(page_size(4096, ""), Ok(4096));
    assert_eq!(
        page_size(-1, "Invalid argument"),
        Err("sysconf(_SC_PAGESIZE) failed: Invalid argument".to_string())
    );
    assert_eq!(page_size(0, "x"), Err("sysconf(_SC_PAGESIZE) failed: x".to_string()));
}

#[test]
fn rounding_goes_up_to_whole_pages() {
    assert_eq!(round_up(0, 4096), Ok(0));
    assert_eq!(round_up(1, 4096), Ok(4096));
    assert_eq!(round_up(4096, 4096), Ok(4096));
    assert_eq!(round_up(4097, 4096), Ok(8192));
    assert_eq!(round_up(7, 1), Ok(7));
    assert_eq!(round_up(usize::MAX - 4095, 4096), Ok(usize::MAX - 4095));
    assert_eq!(round_up(usize::MAX - 4094, 4096), Err("page alignment overflow".to_string()));
}

#[test]
fn powers_of_two_are_told_from_other_numbers() {
    for n in [1, 2, 4096, 1 << 31] {
        assert!(is_power_of_two(n));
    }
    for n in [0, 3, 12, 4095, usize::MAX] {
        assert!(!is_power_of_two(n));
    }
}

#[test]
fn a_fresh_memory_takes_the_snapshot_of_a_grown_one() {
    let mut host = Host::new();
    let mut first = TrackingMemoryCreator::new();
    let memory = make(&mut first, &mut host, 4096, Some(16384), Some(16384), 4096).unwrap();
    grow(&mut first, &memory, 12000).unwrap();
    host.write(memory.as_ptr() + 11_997, b"end");
    let snapshots = first.tracker().snapshot_live_regions(host.read(first.tracker().snapshot_reads()));

    let mut plain = TrackingMemoryCreator::new();
    make(&mut plain, &mut host, 4096, Some(16384), Some(16384), 4096).unwrap();
    assert_eq!(
        plain.tracker().restore_live_regions(&snapshots).outcome,
        Err("linear-memory region 1 size mismatch: snapshot=12000 live=4096".to_string())
    );

    let mut floored = TrackingMemoryCreator::new_with_initial_size_floor(12000);
    let fresh = make(&mut floored, &mut host, 4096, Some(16384), Some(16384), 4096).unwrap();
    let restore = floored.tracker().restore_live_regions(&snapshots);
    assert_eq!(restore.outcome.unwrap().restored_bytes, 12000);
    for write in restore.writes {
        host.write(write.base_addr, &snapshots[write.snapshot].bytes);
    }
    let copied = host.read(floored.tracker().snapshot_reads());
    assert_eq!(copied[&fresh.id()], snapshots[0].bytes);
    assert_eq!(&copied[&fresh.id()][11_997..], b"end");
}

#[test]
fn a_memory_stays_live_while_others_come_and_go() {
    let mut host = Host::new();
    let mut creator = TrackingMemoryCreator::new();
    let first = make(&mut creator, &mut host, 4096, None, None, 0).unwrap();
    let second = make(&mut creator, &mut host, 8192, None, Some(16384), 0).unwrap();
    grow(&mut creator, &second, 16384).unwrap();
    let _ = second.release(creator.tracker_mut());
    assert_eq!(first.byte_size(creator.tracker()), 4096);
    assert_eq!(first.byte_capacity(creator.tracker()), 4096);
    let _ = first.release(creator.tracker_mut());
    let stats = creator.tracker().stats();
    assert_eq!((stats.mapped_bytes, stats.accessible_bytes), (0, 0));
    assert_eq!((stats.allocations, stats.deallocations), (2, 2));
}
