//! What the calls of a tracker come to.

use vstd::prelude::*;

use crate::tracker::{
    add_with_peak, HostMemoryRegion, HostMemoryStats, HostMemoryTracker, RegionRecord, TrackerView,
};

verus! {

/// `m` is the larger of `a` and `b`.
pub open spec fn is_larger_of(m: int, a: int, b: int) -> bool {
    m >= a && m >= b && (m == a || m == b)
}

/// Nothing is live and nothing has been counted.
pub open spec fn has_seen_nothing(tracker: TrackerView) -> bool {
    &&& forall|id: u64| !#[trigger] tracker.regions.contains_key(id)
    &&& tracker.stats.allocations == 0 && tracker.stats.deallocations == 0
    &&& tracker.stats.mapped_bytes == 0 && tracker.stats.peak_mapped_bytes == 0
    &&& tracker.stats.accessible_bytes == 0 && tracker.stats.peak_accessible_bytes == 0
    &&& tracker.stats.grow_count == 0
    &&& tracker.next_id == 0
}

/// A new tracker has seen nothing, and says so of each counter.
pub proof fn new_tracker_has_seen_nothing(tracker: HostMemoryTracker, stats: HostMemoryStats)
    requires
        call_ensures(HostMemoryTracker::default, (), tracker),
        call_ensures(HostMemoryStats::default, (), stats),
    ensures
        has_seen_nothing(tracker@),
        stats == tracker@.stats,
{
}

/// All live regions but `id` are the same.
pub open spec fn same_but_for(before: TrackerView, after: TrackerView, id: u64) -> bool {
    forall|other: u64|
        other != id ==> (#[trigger] after.regions.contains_key(other)
            <==> before.regions.contains_key(other)) && (before.regions.contains_key(other)
            ==> after.regions[other] == before.regions[other])
}

/// An allocation makes a region live, with exactly the sizes that it was given, under an id that is
/// above every id before it. It leaves the other regions alone, counts one allocation, and adds
/// the region's mapped and accessible bytes to the totals, whose peaks follow.
pub proof fn allocation_adds_the_region(
    tracker: &mut HostMemoryTracker,
    base_addr: usize,
    byte_size: usize,
    byte_capacity: usize,
    accessible_bytes: usize,
    mapped_bytes: usize,
    guard_bytes: usize,
    id: u64,
)
    requires
        old(tracker)@.wf(),
        old(tracker)@.next_id < u64::MAX,
        old(tracker)@.stats.mapped_bytes + mapped_bytes <= usize::MAX,
        old(tracker)@.stats.accessible_bytes + accessible_bytes <= usize::MAX,
        call_ensures(
            HostMemoryTracker::record_allocation,
            (
                tracker,
                base_addr,
                byte_size,
                byte_capacity,
                accessible_bytes,
                mapped_bytes,
                guard_bytes,
            ),
            id,
        ),
    ensures
        allocated(
            old(tracker)@,
            final(tracker)@,
            id,
            base_addr,
            byte_size,
            byte_capacity,
            accessible_bytes,
            mapped_bytes,
            guard_bytes,
        ),
{
}

/// `after` is `before` with one more region.
pub open spec fn allocated(
    before: TrackerView,
    after: TrackerView,
    id: u64,
    base_addr: usize,
    byte_size: usize,
    byte_capacity: usize,
    accessible_bytes: usize,
    mapped_bytes: usize,
    guard_bytes: usize,
) -> bool {
    &&& !before.regions.contains_key(id)
    &&& forall|live: u64| #[trigger] before.regions.contains_key(live) ==> live < id
    &&& id == before.next_id + 1 && after.next_id == id
    &&& after.regions.contains_key(id)
    &&& after.regions[id].base_addr == base_addr
    &&& after.regions[id].byte_size == byte_size
    &&& after.regions[id].byte_capacity == byte_capacity
    &&& after.regions[id].accessible_bytes == accessible_bytes
    &&& after.regions[id].mapped_bytes == mapped_bytes
    &&& after.regions[id].guard_bytes == guard_bytes
    &&& same_but_for(before, after, id)
    &&& after.stats.allocations == before.stats.allocations + 1
    &&& after.stats.deallocations == before.stats.deallocations
    &&& after.stats.grow_count == before.stats.grow_count
    &&& after.stats.mapped_bytes == before.stats.mapped_bytes + mapped_bytes
    &&& after.stats.accessible_bytes == before.stats.accessible_bytes + accessible_bytes
    &&& is_larger_of(
        after.stats.peak_mapped_bytes as int,
        before.stats.peak_mapped_bytes as int,
        after.stats.mapped_bytes as int,
    )
    &&& is_larger_of(
        after.stats.peak_accessible_bytes as int,
        before.stats.peak_accessible_bytes as int,
        after.stats.accessible_bytes as int,
    )
}

/// `after` is `before` with region `id` at other sizes. The accessible total goes up by what the
/// region gains, and stays where the region loses.
pub open spec fn resized(
    before: TrackerView,
    after: TrackerView,
    id: u64,
    byte_size: usize,
    accessible_bytes: usize,
) -> bool {
    let gained = accessible_bytes - before.regions[id].accessible_bytes;
    &&& after.next_id == before.next_id
    &&& after.regions.contains_key(id)
    &&& after.regions[id].byte_size == byte_size
    &&& after.regions[id].accessible_bytes == accessible_bytes
    &&& after.regions[id].base_addr == before.regions[id].base_addr
    &&& after.regions[id].byte_capacity == before.regions[id].byte_capacity
    &&& after.regions[id].mapped_bytes == before.regions[id].mapped_bytes
    &&& after.regions[id].guard_bytes == before.regions[id].guard_bytes
    &&& same_but_for(before, after, id)
    &&& after.stats.allocations == before.stats.allocations
    &&& after.stats.deallocations == before.stats.deallocations
    &&& after.stats.mapped_bytes == before.stats.mapped_bytes
    &&& after.stats.peak_mapped_bytes == before.stats.peak_mapped_bytes
    &&& is_larger_of(
        after.stats.accessible_bytes as int,
        before.stats.accessible_bytes as int,
        before.stats.accessible_bytes + gained,
    )
    &&& is_larger_of(
        after.stats.peak_accessible_bytes as int,
        before.stats.peak_accessible_bytes as int,
        after.stats.accessible_bytes as int,
    )
}

/// Recording sizes changes the size and the accessible bytes of the region, and the accessible
/// total by what is gained. No growth is counted by it.
pub proof fn recorded_sizes_are_those_given(
    tracker: &mut HostMemoryTracker,
    id: u64,
    byte_size: usize,
    accessible_bytes: usize,
)
    requires
        old(tracker)@.wf(),
        old(tracker)@.regions.contains_key(id),
        old(tracker)@.stats.accessible_bytes + accessible_bytes
            - old(tracker)@.regions[id].accessible_bytes <= usize::MAX,
        call_ensures(
            HostMemoryTracker::record_growth_locked,
            (tracker, id, byte_size, accessible_bytes),
            (),
        ),
    ensures
        resized(old(tracker)@, final(tracker)@, id, byte_size, accessible_bytes),
        final(tracker)@.stats.grow_count == old(tracker)@.stats.grow_count,
{
}

/// `after` is `before` without region `id`, whose mapped and accessible bytes are off the totals.
/// Peaks stay. Nothing changes if the region was not live.
pub open spec fn deallocated(before: TrackerView, after: TrackerView, id: u64) -> bool {
    &&& !after.regions.contains_key(id)
    &&& same_but_for(before, after, id)
    &&& after.next_id == before.next_id
    &&& after.stats.allocations == before.stats.allocations
    &&& after.stats.grow_count == before.stats.grow_count
    &&& after.stats.peak_mapped_bytes == before.stats.peak_mapped_bytes
    &&& after.stats.peak_accessible_bytes == before.stats.peak_accessible_bytes
    &&& before.regions.contains_key(id) ==> {
        &&& after.stats.deallocations == before.stats.deallocations + 1
        &&& after.stats.mapped_bytes + before.regions[id].mapped_bytes == before.stats.mapped_bytes
        &&& after.stats.accessible_bytes + before.regions[id].accessible_bytes
            == before.stats.accessible_bytes
    }
    &&& !before.regions.contains_key(id) ==> after.stats == before.stats
}

/// A deallocation takes the region away, and what it had added to the current totals.
pub proof fn deallocation_removes_the_region(tracker: &mut HostMemoryTracker, id: u64)
    requires
        old(tracker)@.wf(),
        call_ensures(HostMemoryTracker::record_deallocation, (tracker, id), ()),
    ensures
        deallocated(old(tracker)@, final(tracker)@, id),
{
    crate::tracker::deallocation_keeps_wf(old(tracker)@, id);
}

/// Adding to a count raises its peak to the new count if that is higher.
pub proof fn peak_follows_the_count(current: &mut usize, peak: &mut usize, delta: usize)
    requires
        *old(current) + delta <= usize::MAX,
        call_ensures(add_with_peak, (current, peak, delta), ()),
    ensures
        *final(current) == *old(current) + delta,
        is_larger_of(*final(peak) as int, *old(peak) as int, *final(current) as int),
{
}

/// `region` shows each field of `record`.
pub open spec fn shows(region: HostMemoryRegion, id: u64, record: RegionRecord) -> bool {
    &&& region.id == id
    &&& region.base_addr == record.base_addr
    &&& region.byte_size == record.byte_size
    &&& region.byte_capacity == record.byte_capacity
    &&& region.accessible_bytes == record.accessible_bytes
    &&& region.mapped_bytes == record.mapped_bytes
    &&& region.guard_bytes == record.guard_bytes
}

/// The stats and the record of a region are those that the tracker keeps, and the list of live
/// regions shows each of them once, with every field of its record.
pub proof fn queries_show_the_tracker(
    tracker: HostMemoryTracker,
    id: u64,
    stats: HostMemoryStats,
    record: Option<RegionRecord>,
    list: Vec<HostMemoryRegion>,
)
    requires
        call_ensures(HostMemoryTracker::stats, (&tracker,), stats),
        call_ensures(HostMemoryTracker::region, (&tracker, id), record),
        call_ensures(HostMemoryTracker::live_regions, (&tracker,), list),
    ensures
        stats == tracker@.stats,
        record is Some <==> tracker@.regions.contains_key(id),
        record matches Some(found) ==> found == tracker@.regions[id],
        forall|i: int|
            0 <= i < list@.len() ==> tracker@.regions.contains_key(#[trigger] list@[i].id) && shows(
                list@[i],
                list@[i].id,
                tracker@.regions[list@[i].id],
            ),
        forall|i: int, j: int|
            0 <= i < j < list@.len() ==> #[trigger] list@[i].id != #[trigger] list@[j].id,
        tracker@.regions.contains_key(id) ==> exists|i: int|
            0 <= i < list@.len() && #[trigger] list@[i].id == id,
        list@.len() == tracker@.regions.len(),
{
}

} // verus!
