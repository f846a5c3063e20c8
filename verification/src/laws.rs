//! What holds across operations. The modules below state, of each executable function, what a
//! call comes to in terms of what it is given and what it gives back.

pub mod memory;
pub mod report;
pub mod restore;
pub mod session;
pub mod setup;
pub mod text;
pub mod tracker;

use vstd::arithmetic::power2::is_pow2;
use vstd::prelude::*;

use crate::dict::{
    entries, entry_snapshot, first_error, lookup, number_entry, restore_entries, snapshot_entries,
    stands_for, DictItem, RegionArgumentError, RegionEntry, RegionsArgument, ValueView,
};
use crate::growth::{grow_request, growth_refusal, GrowRequest};
use crate::layout::{LayoutError, MemoryLayout, MemoryRequest};
use crate::memory::{MappedMemory, MemoryView};
use crate::session::{
    carries, describes_snapshots, list_bytes, reports_snapshots, Session, SessionError,
    SessionRestore,
};
use crate::setup::{follows, SessionOptions, SetupStep};
use crate::snapshot::{
    captured_bytes, first_refused, lists_snapshots, refusal, restore_writes, restores,
    total_bytes, HostMemoryRegionSnapshot, HostMemoryRestore, HostMemoryRestoreStats,
    HostMemoryWrite, RestoreMode, SnapshotView,
};
use crate::tracker::{
    accessible_of, larger, mapped_of, share, HostMemoryTracker, RegionRecord, TrackerView,
};

verus! {

/// The `len` bytes of `memory` from address `base` on.
pub open spec fn read_bytes(memory: spec_fn(int) -> u8, base: int, len: nat) -> Seq<u8> {
    Seq::new(len, |i: int| memory(base + i))
}

/// `memory` with `bytes` written from address `base` on.
pub open spec fn write_bytes(
    memory: spec_fn(int) -> u8,
    base: int,
    bytes: Seq<u8>,
) -> spec_fn(int) -> u8 {
    |a: int|
        if base <= a < base + bytes.len() {
            bytes[a - base]
        } else {
            memory(a)
        }
}

/// `memory` once the host has made `writes`, in order.
pub open spec fn apply_writes(
    memory: spec_fn(int) -> u8,
    writes: Seq<HostMemoryWrite>,
    snapshots: Seq<HostMemoryRegionSnapshot>,
) -> spec_fn(int) -> u8
    decreases writes.len(),
{
    if writes.len() == 0 {
        memory
    } else {
        write_bytes(
            apply_writes(memory, writes.drop_last(), snapshots),
            writes.last().base_addr as int,
            snapshots[writes.last().snapshot as int].bytes@,
        )
    }
}

/// The host copied `contents` out of `memory`.
pub open spec fn copied_from(
    contents: Map<u64, Vec<u8>>,
    regions: Map<u64, RegionRecord>,
    memory: spec_fn(int) -> u8,
) -> bool {
    forall|id: u64| #[trigger]
        regions.contains_key(id) && regions[id].byte_size != 0 ==> contents.contains_key(id)
            && contents[id]@ == read_bytes(
            memory,
            regions[id].base_addr as int,
            regions[id].byte_size as nat,
        )
}

/// Address `a` belongs to the region with `record`.
pub open spec fn in_region(record: RegionRecord, a: int) -> bool {
    record.base_addr <= a < record.base_addr + record.byte_size
}

/// Address `a` belongs to a live region.
pub open spec fn in_live_region(regions: Map<u64, RegionRecord>, a: int) -> bool {
    exists|id: u64| #[trigger] regions.contains_key(id) && in_region(regions[id], a)
}

/// No live region is larger than its capacity.
pub open spec fn sizes_fit(regions: Map<u64, RegionRecord>) -> bool {
    forall|id: u64| #[trigger]
        regions.contains_key(id) ==> regions[id].byte_size <= regions[id].byte_capacity
}

/// No snapshot is refused from `from` on.
proof fn lemma_none_refused(
    mode: RestoreMode,
    regions: Map<u64, RegionRecord>,
    snapshots: Seq<HostMemoryRegionSnapshot>,
    from: nat,
)
    requires
        from <= snapshots.len(),
        forall|i: int|
            0 <= i < snapshots.len() ==> refusal(mode, regions, #[trigger] snapshots[i]) is None,
    ensures
        first_refused(mode, regions, snapshots, from) == snapshots.len(),
    decreases snapshots.len() - from,
{
    if from < snapshots.len() {
        lemma_none_refused(mode, regions, snapshots, from + 1);
    }
}

/// Restoring the first `n` snapshots of a capture puts the captured bytes back into their
/// regions and leaves every other address alone.
proof fn lemma_restored_prefix(
    regions: Map<u64, RegionRecord>,
    contents: Map<u64, Vec<u8>>,
    snapshots: Seq<HostMemoryRegionSnapshot>,
    n: nat,
    captured: spec_fn(int) -> u8,
    later: spec_fn(int) -> u8,
    a: int,
)
    requires
        n <= snapshots.len() <= usize::MAX,
        lists_snapshots(snapshots, regions, contents),
        copied_from(contents, regions, captured),
    ensures
        apply_writes(later, restore_writes(regions, snapshots, n), snapshots)(a) == if exists|
            i: int,
        |
            0 <= i < n && in_region(regions[#[trigger] snapshots[i].id], a) {
            captured(a)
        } else {
            later(a)
        },
    decreases n,
{
    if n > 0 {
        let m = (n - 1) as nat;
        lemma_restored_prefix(regions, contents, snapshots, m, captured, later, a);
        let snapshot = snapshots[m as int];
        let record = regions[snapshot.id];
        let earlier = restore_writes(regions, snapshots, m);
        let writes = restore_writes(regions, snapshots, n);
        assert(regions.contains_key(snapshots[m as int].id));
        assert(snapshot.bytes@ == captured_bytes(contents, regions, snapshot.id));
        if snapshot.bytes@.len() != 0 {
            assert(writes.drop_last() =~= earlier);
        }
        if in_region(record, a) {
            assert(in_region(regions[snapshots[m as int].id], a));
        }
        assert(forall|i: int|
            0 <= i < n && in_region(regions[#[trigger] snapshots[i].id], a) ==> i < m || i == m);
    }
}

/// A snapshot restored into the tracker that it was taken of is accepted as a whole, in
/// either mode, counts every live region, and puts memory back as it was: every address of
/// a live region holds the captured byte again, and no other address is touched.
pub proof fn restore_puts_snapshot_back(
    mode: RestoreMode,
    tracker: TrackerView,
    contents: Map<u64, Vec<u8>>,
    snapshots: Seq<HostMemoryRegionSnapshot>,
    restore: HostMemoryRestore,
    captured: spec_fn(int) -> u8,
    later: spec_fn(int) -> u8,
)
    requires
        snapshots.len() <= usize::MAX,
        lists_snapshots(snapshots, tracker.regions, contents),
        copied_from(contents, tracker.regions, captured),
        restores(mode, tracker.regions, snapshots, restore),
        mode is Growing ==> sizes_fit(tracker.regions),
    ensures
        restore.outcome matches Ok(stats) && stats.restored_regions == tracker.regions.len()
            && stats.restored_bytes == total_bytes(snapshots, snapshots.len()),
        forall|a: int|
            #[trigger] apply_writes(later, restore.writes@, snapshots)(a) == if in_live_region(
                tracker.regions,
                a,
            ) {
                captured(a)
            } else {
                later(a)
            },
{
    let regions = tracker.regions;
    assert forall|i: int| 0 <= i < snapshots.len() implies refusal(
        mode,
        regions,
        #[trigger] snapshots[i],
    ) is None by {
        let id = snapshots[i].id;
        assert(regions.contains_key(snapshots[i].id));
        assert(snapshots[i].bytes@ == captured_bytes(contents, regions, id));
        assert(snapshots[i].bytes@.len() == regions[id].byte_size);
    }
    lemma_none_refused(mode, regions, snapshots, 0);
    assert forall|a: int|
        #[trigger] apply_writes(later, restore.writes@, snapshots)(a) == if in_live_region(
            regions,
            a,
        ) {
            captured(a)
        } else {
            later(a)
        } by {
        lemma_restored_prefix(regions, contents, snapshots, snapshots.len(), captured, later, a);
        if in_live_region(regions, a) {
            let id = choose|id: u64| #[trigger] regions.contains_key(id) && in_region(regions[id], a);
            let i = choose|i: int| 0 <= i < snapshots.len() && #[trigger] snapshots[i].id == id;
            assert(in_region(regions[snapshots[i].id], a));
        } else {
            assert forall|i: int| 0 <= i < snapshots.len() implies !in_region(
                regions[#[trigger] snapshots[i].id],
                a,
            ) by {
                assert(regions.contains_key(snapshots[i].id));
            }
        }
    }
}

/// The snapshots before the first refused one are not refused.
proof fn lemma_accepted_before_refused(
    mode: RestoreMode,
    regions: Map<u64, RegionRecord>,
    snapshots: Seq<HostMemoryRegionSnapshot>,
    from: nat,
)
    requires
        from <= snapshots.len(),
    ensures
        first_refused(mode, regions, snapshots, from) <= snapshots.len(),
        forall|i: int|
            from <= i < first_refused(mode, regions, snapshots, from) ==> refusal(
                mode,
                regions,
                #[trigger] snapshots[i],
            ) is None,
    decreases snapshots.len() - from,
{
    if from < snapshots.len() {
        lemma_accepted_before_refused(mode, regions, snapshots, from + 1);
    }
}

/// `write` fills a live region: it puts all bytes of its snapshot at the base of the snapshot's
/// region, which has exactly that size.
pub open spec fn fills_live_region(
    write: HostMemoryWrite,
    regions: Map<u64, RegionRecord>,
    snapshots: Seq<HostMemoryRegionSnapshot>,
) -> bool {
    let snapshot = snapshots[write.snapshot as int];
    &&& write.snapshot < snapshots.len()
    &&& regions.contains_key(snapshot.id)
    &&& write.base_addr == regions[snapshot.id].base_addr
    &&& snapshot.bytes@.len() == regions[snapshot.id].byte_size
}

/// The writes for snapshots that are not refused fill live regions.
proof fn lemma_writes_fill_regions(
    mode: RestoreMode,
    regions: Map<u64, RegionRecord>,
    snapshots: Seq<HostMemoryRegionSnapshot>,
    n: nat,
)
    requires
        n <= snapshots.len() <= usize::MAX,
        forall|i: int| 0 <= i < n ==> refusal(mode, regions, #[trigger] snapshots[i]) is None,
    ensures
        forall|w: int|
            0 <= w < restore_writes(regions, snapshots, n).len() ==> fills_live_region(
                #[trigger] restore_writes(regions, snapshots, n)[w],
                regions,
                snapshots,
            ),
    decreases n,
{
    if n > 0 {
        lemma_writes_fill_regions(mode, regions, snapshots, (n - 1) as nat);
        assert(refusal(mode, regions, snapshots[n - 1]) is None);
        let earlier = restore_writes(regions, snapshots, (n - 1) as nat);
        let writes = restore_writes(regions, snapshots, n);
        assert forall|w: int| 0 <= w < writes.len() implies fills_live_region(
            #[trigger] writes[w],
            regions,
            snapshots,
        ) by {
            if w < earlier.len() {
                assert(writes[w] == earlier[w]);
            }
        }
    }
}

/// Whatever snapshots a restore is given, and whether it succeeds or not, the host is asked to
/// write into live regions only, and never past their size.
pub proof fn restore_stays_in_live_regions(
    mode: RestoreMode,
    tracker: TrackerView,
    snapshots: Seq<HostMemoryRegionSnapshot>,
    restore: HostMemoryRestore,
)
    requires
        snapshots.len() <= usize::MAX,
        restores(mode, tracker.regions, snapshots, restore),
    ensures
        forall|w: int|
            0 <= w < restore.writes@.len() ==> fills_live_region(
                #[trigger] restore.writes@[w],
                tracker.regions,
                snapshots,
            ),
{
    let n = first_refused(mode, tracker.regions, snapshots, 0);
    lemma_accepted_before_refused(mode, tracker.regions, snapshots, 0);
    lemma_writes_fill_regions(mode, tracker.regions, snapshots, n);
}

/// The growing restore takes exactly the snapshots that the exact restore takes.
proof fn lemma_modes_refuse_alike(
    regions: Map<u64, RegionRecord>,
    snapshots: Seq<HostMemoryRegionSnapshot>,
    from: nat,
)
    requires
        sizes_fit(regions),
    ensures
        first_refused(RestoreMode::Growing, regions, snapshots, from) == first_refused(
            RestoreMode::Exact,
            regions,
            snapshots,
            from,
        ),
    decreases snapshots.len() - from,
{
    if from < snapshots.len() {
        lemma_modes_refuse_alike(regions, snapshots, from + 1);
    }
}

/// The growing restore never does more than the exact one: it makes the same writes, succeeds
/// on the same snapshots and then with the same summary.
pub proof fn growing_restore_grows_nothing(
    tracker: TrackerView,
    snapshots: Seq<HostMemoryRegionSnapshot>,
    exact: HostMemoryRestore,
    growing: HostMemoryRestore,
)
    requires
        sizes_fit(tracker.regions),
        restores(RestoreMode::Exact, tracker.regions, snapshots, exact),
        restores(RestoreMode::Growing, tracker.regions, snapshots, growing),
    ensures
        growing.writes@ == exact.writes@,
        growing.outcome is Ok <==> exact.outcome is Ok,
        exact.outcome is Ok ==> growing.outcome == exact.outcome,
{
    lemma_modes_refuse_alike(tracker.regions, snapshots, 0);
}

/// A region in whole pages of `page_size` bytes: its size lies in the accessible part, and that
/// in the capacity; accessible part, capacity, guard and mapping are whole pages; the mapping is
/// capacity and guard, and a page if these are empty.
pub open spec fn region_is_sound(record: RegionRecord, page_size: usize) -> bool {
    &&& record.byte_size <= record.accessible_bytes <= record.byte_capacity
    &&& record.accessible_bytes as int % page_size as int == 0
    &&& record.byte_capacity as int % page_size as int == 0
    &&& record.guard_bytes as int % page_size as int == 0
    &&& record.mapped_bytes as int % page_size as int == 0
    &&& record.mapped_bytes == if record.byte_capacity + record.guard_bytes > page_size {
        record.byte_capacity + record.guard_bytes
    } else {
        page_size as int
    }
}

/// Every live region is sound.
pub open spec fn regions_are_sound(tracker: TrackerView, page_size: usize) -> bool {
    forall|id: u64| #[trigger]
        tracker.regions.contains_key(id) ==> region_is_sound(tracker.regions[id], page_size)
}

/// A tracker that has seen no memory is as every tracker is to be, its accessible bytes are
/// exact, and its regions are sound.
pub proof fn fresh_tracker_is_sound(page_size: usize)
    ensures
        TrackerView::fresh().wf(),
        TrackerView::fresh().accessible_is_exact(),
        regions_are_sound(TrackerView::fresh(), page_size),
{
}

/// Sound regions are no larger than their capacity.
pub proof fn sound_regions_fit(tracker: TrackerView, page_size: usize)
    requires
        regions_are_sound(tracker, page_size),
    ensures
        sizes_fit(tracker.regions),
{
}

/// A memory made for a planned layout is sound, and adding it keeps every live region so.
pub proof fn creation_keeps_regions_sound(
    tracker: TrackerView,
    request: MemoryRequest,
    mapped: MappedMemory,
    page_size: usize,
)
    requires
        page_size > 0,
        regions_are_sound(tracker, page_size),
        request.layout(page_size) == Ok::<MemoryLayout, LayoutError>(mapped.layout),
    ensures
        region_is_sound(mapped.record(), page_size),
        regions_are_sound(tracker.after_allocation(mapped.record()), page_size),
{
    crate::layout::layout_is_sound(request, page_size);
}

/// A growth that is not refused makes no page beyond the capacity accessible, keeps every region
/// sound, leaves the region's place, capacity, mapping and guard as they were, and leaves all other
/// regions alone.
pub proof fn growth_keeps_regions_sound(
    tracker: TrackerView,
    id: u64,
    new_size: usize,
    page_size: usize,
)
    requires
        page_size > 0,
        regions_are_sound(tracker, page_size),
        tracker.regions.contains_key(id),
        growth_refusal(tracker.regions[id], new_size, Ok(page_size)) is None,
    ensures
        ({
            let request = grow_request(id, tracker.regions[id], new_size, page_size);
            let grown = tracker.after_grow_operation(request);
            &&& request.accessible_bytes <= tracker.regions[id].byte_capacity
            &&& regions_are_sound(grown, page_size)
            &&& grown.regions.dom() == tracker.regions.dom()
            &&& grown.regions[id] == RegionRecord {
                byte_size: new_size,
                accessible_bytes: request.accessible_bytes,
                ..tracker.regions[id]
            }
            &&& forall|other: u64|
                other != id && tracker.regions.contains_key(other)
                    ==> #[trigger] grown.regions[other] == tracker.regions[other]
        }),
{
    let record = tracker.regions[id];
    crate::align::rounded_up_is_least_multiple(new_size as int, page_size as int);
    assert(record.byte_capacity as int % page_size as int == 0);
    let request = grow_request(id, record, new_size, page_size);
    assert(tracker.after_grow_operation(request).regions.dom() =~= tracker.regions.dom());
}

/// A growth through a request keeps the accessible bytes exact, whatever size it goes to: no page
/// is given up, so neither the region's accessible bytes nor the total fall.
pub proof fn growth_keeps_accessible_exact(
    tracker: TrackerView,
    id: u64,
    new_size: usize,
    page_size: usize,
)
    requires
        tracker.wf(),
        tracker.accessible_is_exact(),
        tracker.regions.contains_key(id),
        tracker.has_room_to_grow(
            id,
            grow_request(id, tracker.regions[id], new_size, page_size).accessible_bytes,
        ),
    ensures
        ({
            let request = grow_request(id, tracker.regions[id], new_size, page_size);
            let grown = tracker.after_grow_operation(request);
            &&& grown.accessible_is_exact()
            &&& grown.regions[id].accessible_bytes >= tracker.regions[id].accessible_bytes
            &&& grown.stats.accessible_bytes >= tracker.stats.accessible_bytes
        }),
{
    let request = grow_request(id, tracker.regions[id], new_size, page_size);
    crate::tracker::growth_keeps_wf(tracker, id, new_size, request.accessible_bytes);
}

/// Where the regions are sound and the accessible bytes exact, no more bytes are accessible than
/// are mapped.
pub proof fn accessible_bytes_are_mapped(tracker: TrackerView, page_size: usize)
    requires
        tracker.wf(),
        tracker.accessible_is_exact(),
        regions_are_sound(tracker, page_size),
    ensures
        tracker.stats.accessible_bytes <= tracker.stats.mapped_bytes,
{
    let accessible = accessible_of();
    let mapped = mapped_of();
    assert forall|id: u64| #[trigger] share(tracker.regions, id, accessible) <= share(
        tracker.regions,
        id,
        mapped,
    ) by {
        if tracker.regions.contains_key(id) {
            assert(region_is_sound(tracker.regions[id], page_size));
        }
    }
    crate::tracker::lemma_total_le(
        tracker.regions,
        tracker.next_id as nat,
        accessible,
        mapped,
    );
}

/// Dropping a memory keeps every other region, and keeps them sound.
pub proof fn deallocation_keeps_regions_sound(tracker: TrackerView, id: u64, page_size: usize)
    requires
        regions_are_sound(tracker, page_size),
    ensures
        regions_are_sound(tracker.after_deallocation(id), page_size),
        !tracker.after_deallocation(id).regions.contains_key(id),
        forall|other: u64|
            other != id && tracker.regions.contains_key(other) ==> {
                &&& #[trigger] tracker.after_deallocation(id).regions.contains_key(other)
                &&& tracker.after_deallocation(id).regions[other] == tracker.regions[other]
            },
{
}

/// A sound region grows to any size up to its capacity, and to no other.
pub proof fn growth_is_owed_up_to_capacity(record: RegionRecord, new_size: usize, page_size: usize)
    requires
        is_pow2(page_size as int),
        region_is_sound(record, page_size),
    ensures
        growth_refusal(record, new_size, Ok(page_size)) is None <==> new_size
            <= record.byte_capacity,
{
    reveal(is_pow2);
    crate::align::multiple_can_round_up(record.byte_capacity, page_size);
}

/// An id is fresh when it is handed out, and no operation makes it available again: the
/// tracker never goes back on the ids that it has handed out.
pub proof fn ids_are_never_reused(
    tracker: TrackerView,
    record: RegionRecord,
    id: u64,
    request: GrowRequest,
)
    requires
        tracker.wf(),
        tracker.has_room_for(record),
    ensures
        !tracker.regions.contains_key(tracker.fresh_id()),
        forall|live: u64| #[trigger]
            tracker.regions.contains_key(live) ==> live < tracker.fresh_id(),
        tracker.after_allocation(record).next_id == tracker.fresh_id(),
        tracker.after_allocation(record).next_id > tracker.next_id,
        tracker.after_deallocation(id).next_id == tracker.next_id,
        tracker.after_grow_operation(request).next_id == tracker.next_id,
{
}

/// The tracker once region `id` has grown to each of `sizes` in turn, in pages of `page_size`
/// bytes.
pub open spec fn after_grows(
    tracker: TrackerView,
    id: u64,
    sizes: Seq<usize>,
    page_size: usize,
) -> TrackerView
    decreases sizes.len(),
{
    if sizes.len() == 0 {
        tracker
    } else {
        let earlier = after_grows(tracker, id, sizes.drop_last(), page_size);
        earlier.after_grow_operation(
            grow_request(id, earlier.regions[id], sizes.last(), page_size),
        )
    }
}

/// The counters have room for each of these growths.
pub open spec fn have_room(
    tracker: TrackerView,
    id: u64,
    sizes: Seq<usize>,
    page_size: usize,
) -> bool
    decreases sizes.len(),
{
    sizes.len() == 0 || {
        let earlier = after_grows(tracker, id, sizes.drop_last(), page_size);
        &&& have_room(tracker, id, sizes.drop_last(), page_size)
        &&& earlier.has_room_to_grow(
            id,
            grow_request(id, earlier.regions[id], sizes.last(), page_size).accessible_bytes,
        )
    }
}

/// Growing a region changes that region, the accessible bytes by what it gains, and the number of
/// growths; peaks of accessible bytes do not fall.
proof fn lemma_after_grows(tracker: TrackerView, id: u64, sizes: Seq<usize>, page_size: usize)
    requires
        tracker.regions.contains_key(id),
        have_room(tracker, id, sizes, page_size),
    ensures
        ({
            let grown = after_grows(tracker, id, sizes, page_size);
            &&& grown.next_id == tracker.next_id
            &&& grown.regions.contains_key(id)
            &&& grown.regions.remove(id) == tracker.regions.remove(id)
            &&& grown.regions[id].mapped_bytes == tracker.regions[id].mapped_bytes
            &&& grown.stats.accessible_bytes - tracker.stats.accessible_bytes
                == grown.regions[id].accessible_bytes - tracker.regions[id].accessible_bytes
            &&& grown.stats.peak_accessible_bytes >= tracker.stats.peak_accessible_bytes
            &&& grown.stats.mapped_bytes == tracker.stats.mapped_bytes
            &&& grown.stats.peak_mapped_bytes == tracker.stats.peak_mapped_bytes
            &&& grown.stats.allocations == tracker.stats.allocations
            &&& grown.stats.deallocations == tracker.stats.deallocations
            &&& grown.stats.grow_count == (tracker.stats.grow_count + sizes.len())
                % 0x1_0000_0000_0000_0000
        }),
    decreases sizes.len(),
{
    if sizes.len() > 0 {
        lemma_after_grows(tracker, id, sizes.drop_last(), page_size);
        let earlier = after_grows(tracker, id, sizes.drop_last(), page_size);
        let grown = after_grows(tracker, id, sizes, page_size);
        assert(grown.regions.remove(id) =~= earlier.regions.remove(id));
    }
}

/// A memory that is made, grown any number of times and to any sizes, and dropped again leaves
/// the live regions and the current byte counts as they were. One allocation, one deallocation
/// and the growths have been counted. The mapped peak is the larger of the old one and the total
/// with the memory; the accessible peak has not fallen.
pub proof fn deallocation_undoes_allocation(
    tracker: TrackerView,
    record: RegionRecord,
    sizes: Seq<usize>,
    page_size: usize,
)
    requires
        tracker.wf(),
        tracker.has_room_for(record),
        have_room(tracker.after_allocation(record), tracker.fresh_id(), sizes, page_size),
    ensures
        ({
            let id = tracker.fresh_id();
            let made = tracker.after_allocation(record);
            let after = after_grows(made, id, sizes, page_size).after_deallocation(id);
            &&& after.regions == tracker.regions
            &&& after.stats.mapped_bytes == tracker.stats.mapped_bytes
            &&& after.stats.accessible_bytes == tracker.stats.accessible_bytes
            &&& after.stats.allocations == tracker.stats.allocations + 1
            &&& after.stats.deallocations == tracker.stats.deallocations + 1
            &&& after.stats.grow_count == (tracker.stats.grow_count + sizes.len())
                % 0x1_0000_0000_0000_0000
            &&& after.stats.peak_mapped_bytes == larger(
                tracker.stats.peak_mapped_bytes,
                (tracker.stats.mapped_bytes + record.mapped_bytes) as usize,
            )
            &&& after.stats.peak_accessible_bytes >= tracker.stats.peak_accessible_bytes
        }),
{
    let id = tracker.fresh_id();
    let made = tracker.after_allocation(record);
    lemma_after_grows(made, id, sizes, page_size);
    let after = after_grows(made, id, sizes, page_size).after_deallocation(id);
    assert(made.regions.remove(id) =~= tracker.regions);
}

/// Dropping a region twice is dropping it once, and dropping one that is not live changes
/// nothing.
pub proof fn deallocation_is_idempotent(tracker: TrackerView, id: u64)
    ensures
        tracker.after_deallocation(id).after_deallocation(id) == tracker.after_deallocation(id),
        !tracker.regions.contains_key(id) ==> tracker.after_deallocation(id) == tracker,
{
}

/// Peaks never fall, and are the highest of the values seen: an operation either leaves a peak
/// as it was or sets it to the new current value.
pub proof fn peaks_never_fall(
    tracker: TrackerView,
    record: RegionRecord,
    id: u64,
    request: GrowRequest,
)
    ensures
        forall|after: TrackerView|
            after == tracker.after_allocation(record) || after == tracker.after_deallocation(id)
                || after == tracker.after_grow_operation(request) ==> {
                &&& #[trigger] after.stats.peak_mapped_bytes >= tracker.stats.peak_mapped_bytes
                &&& after.stats.peak_accessible_bytes >= tracker.stats.peak_accessible_bytes
                &&& after.stats.peak_mapped_bytes == tracker.stats.peak_mapped_bytes
                    || after.stats.peak_mapped_bytes == after.stats.mapped_bytes
                &&& after.stats.peak_accessible_bytes == tracker.stats.peak_accessible_bytes
                    || after.stats.peak_accessible_bytes == after.stats.accessible_bytes
            },
{
}

/// Once every memory is gone, no bytes are counted as mapped, and as many memories were
/// dropped as were made. If the accessible bytes were exact, none are left either.
pub proof fn empty_tracker_maps_nothing(tracker: TrackerView)
    requires
        tracker.wf(),
        tracker.regions.len() == 0,
    ensures
        tracker.stats.mapped_bytes == 0,
        tracker.stats.allocations == tracker.stats.deallocations,
        tracker.accessible_is_exact() ==> tracker.stats.accessible_bytes == 0,
{
    assert forall|id: u64| !#[trigger] tracker.regions.contains_key(id) by {
        if tracker.regions.contains_key(id) {
            assert(tracker.regions.dom().contains(id));
            assert(tracker.regions.dom().len() > 0);
        }
    }
    assert(tracker.regions =~= Map::empty());
    crate::tracker::lemma_total_of_none(tracker.next_id as nat, crate::tracker::mapped_of());
    crate::tracker::lemma_total_of_none(tracker.next_id as nat, crate::tracker::accessible_of());
}

/// A live memory stays live, at its place, while other memories come and go and while memories
/// grow.
pub proof fn memory_stays_live(
    tracker: TrackerView,
    memory: MemoryView,
    record: RegionRecord,
    other: u64,
    request: GrowRequest,
)
    requires
        tracker.wf(),
        tracker.has_room_for(record),
        memory.is_live_in(tracker),
        other != memory.id,
    ensures
        memory.is_live_in(tracker.after_allocation(record)),
        memory.is_live_in(tracker.after_deallocation(other)),
        memory.is_live_in(tracker.after_grow_operation(request)),
{
}

/// A fresh memory takes the snapshot of one that has grown: made from the same request with
/// the snapshot's size as the floor, it has the size and the capacity that the snapshot asks
/// for, wherever it is mapped.
pub proof fn floored_memory_takes_snapshot(
    request: MemoryRequest,
    page_size: usize,
    snapshot: HostMemoryRegionSnapshot,
    fresh: MappedMemory,
    mode: RestoreMode,
    regions: Map<u64, RegionRecord>,
)
    requires
        is_pow2(page_size as int),
        request.layout(page_size) matches Ok(layout) && request.initial_size()
            <= snapshot.bytes.len() <= layout.byte_capacity && snapshot.byte_capacity
            == layout.byte_capacity,
        request.maximum matches Some(maximum) ==> snapshot.bytes.len() <= maximum,
        (MemoryRequest { initial_size_floor: Some(snapshot.bytes.len()), ..request }).layout(
            page_size,
        ) == Ok::<MemoryLayout, LayoutError>(fresh.layout),
        regions.contains_key(snapshot.id),
        regions[snapshot.id] == fresh.record(),
    ensures
        refusal(mode, regions, snapshot) is None,
{
    crate::layout::floor_reproduces_grown_shape(request, snapshot.bytes.len(), page_size);
}

/// Regions that a session has reported are read back as the snapshots that they report.
pub proof fn reported_regions_are_read_back(
    dicts: Seq<Vec<DictItem>>,
    snapshots: Seq<HostMemoryRegionSnapshot>,
    list: Seq<RegionEntry>,
)
    requires
        describes_snapshots(dicts, snapshots),
        hands_back(list, dicts),
    ensures
        forall|error: RegionArgumentError| !#[trigger] first_error(list, error),
        forall|read: Seq<HostMemoryRegionSnapshot>| #[trigger]
            stands_for(list, read) ==> read.len() == snapshots.len() && forall|i: int|
                0 <= i < read.len() ==> (#[trigger] read[i])@ == snapshots[i]@,
{
    assert forall|i: int| 0 <= i < list.len() implies entry_snapshot(
        #[trigger] list[i],
        i as usize,
    ) == Ok::<SnapshotView, RegionArgumentError>(snapshots[i]@) by {
        assert(entries(dicts[i]@) == snapshot_entries(snapshots[i]));
        crate::dict::reported_snapshot_is_read_back(snapshots[i], dicts[i], i as usize);
    }
    assert forall|read: Seq<HostMemoryRegionSnapshot>| #[trigger]
        stands_for(list, read) implies read.len() == snapshots.len() && forall|i: int|
        0 <= i < read.len() ==> (#[trigger] read[i])@ == snapshots[i]@ by {
        assert forall|i: int| 0 <= i < read.len() implies (#[trigger] read[i])@
            == snapshots[i]@ by {
            assert(entry_snapshot(list[i], i as usize) == Ok::<SnapshotView, RegionArgumentError>(
                read[i]@,
            ));
        }
    }
}

/// `list` hands the reported `dicts` back, one for one.
pub open spec fn hands_back(list: Seq<RegionEntry>, dicts: Seq<Vec<DictItem>>) -> bool {
    &&& list.len() == dicts.len()
    &&& forall|i: int| 0 <= i < list.len() ==> #[trigger] list[i] == RegionEntry::Dict(dicts[i])
}

/// Snapshots that read the same list the same regions.
proof fn lemma_same_snapshots_list(
    read: Seq<HostMemoryRegionSnapshot>,
    snapshots: Seq<HostMemoryRegionSnapshot>,
    regions: Map<u64, RegionRecord>,
    contents: Map<u64, Vec<u8>>,
)
    requires
        read.len() == snapshots.len(),
        forall|i: int| 0 <= i < read.len() ==> (#[trigger] read[i])@ == snapshots[i]@,
        lists_snapshots(snapshots, regions, contents),
    ensures
        lists_snapshots(read, regions, contents),
{
    assert forall|i: int| 0 <= i < read.len() implies {
        &&& regions.contains_key(#[trigger] read[i].id)
        &&& read[i].byte_capacity == regions[read[i].id].byte_capacity
        &&& read[i].bytes@ == captured_bytes(contents, regions, read[i].id)
    } by {
        assert(read[i]@ == snapshots[i]@);
        assert(regions.contains_key(snapshots[i].id));
    }
    assert forall|i: int, j: int| 0 <= i < j < read.len() implies #[trigger] read[i].id
        != #[trigger] read[j].id by {
        assert(read[i]@ == snapshots[i]@ && read[j]@ == snapshots[j]@);
        assert(snapshots[i].id != snapshots[j].id);
    }
    assert forall|id: u64| #[trigger] regions.contains_key(id) implies exists|i: int|
        0 <= i < read.len() && #[trigger] read[i].id == id by {
        let i = choose|i: int| 0 <= i < snapshots.len() && #[trigger] snapshots[i].id == id;
        assert(read[i]@ == snapshots[i]@);
        assert(read[i].id == id);
    }
}

/// What a session reports of its linear memories can be given back to it: the restore succeeds,
/// reports as many regions as were given and all bytes in them, and puts memory back as it was
/// when the bytes were copied.
pub proof fn session_restore_puts_memory_back(
    session: Session,
    tracker: Option<&HostMemoryTracker>,
    contents: Map<u64, Vec<u8>>,
    dicts: Seq<Vec<DictItem>>,
    list: Vec<RegionEntry>,
    restore: SessionRestore,
    captured: spec_fn(int) -> u8,
    later: spec_fn(int) -> u8,
)
    requires
        session.tracker_failure(tracker) is None,
        copied_from(contents, tracker->0@.regions, captured),
        reports_snapshots(dicts, tracker->0@.regions, contents),
        hands_back(list@, dicts),
        list@.len() <= usize::MAX,
        session.is_restore(tracker, RegionsArgument::List(list), restore),
    ensures
        restore.outcome matches Ok(items) && list_bytes(list@, list@.len()) <= usize::MAX
            && entries(items@) == restore_entries(
            (HostMemoryRestoreStats {
                restored_regions: dicts.len() as usize,
                restored_bytes: list_bytes(list@, list@.len()) as usize,
            }),
        ),
        forall|a: int|
            #[trigger] apply_writes(later, restore.writes@, restore.snapshots@)(a)
                == if in_live_region(tracker->0@.regions, a) {
                captured(a)
            } else {
                later(a)
            },
{
    let t = tracker->0@;
    let snapshots = choose|snapshots: Seq<HostMemoryRegionSnapshot>| #[trigger]
        describes_snapshots(dicts, snapshots) && lists_snapshots(snapshots, t.regions, contents);
    reported_regions_are_read_back(dicts, snapshots, list@);
    if let Err(SessionError::Argument { error }) = restore.outcome {
        assert(first_error(list@, error));
    }
    assert(stands_for(list@, restore.snapshots@));
    lemma_same_snapshots_list(restore.snapshots@, snapshots, t.regions, contents);
    let passed = choose|passed: HostMemoryRestore| #[trigger]
        carries(restore, passed) && restores(
            RestoreMode::Exact,
            t.regions,
            restore.snapshots@,
            passed,
        );
    restore_puts_snapshot_back(
        RestoreMode::Exact,
        t,
        contents,
        restore.snapshots@,
        passed,
        captured,
        later,
    );
    crate::session::lemma_list_bytes(list@, restore.snapshots@, list@.len());
}

/// One of `dicts` holds these entries.
pub open spec fn is_among(dict: Seq<(Seq<char>, ValueView)>, dicts: Seq<Vec<DictItem>>) -> bool {
    exists|j: int| 0 <= j < dicts.len() && entries(#[trigger] dicts[j]@) == dict
}

/// Two reports say the same, in whatever order: they hold as many dicts, each dict of the one has
/// its equal in the other, and dicts with the same id are equal.
pub open spec fn reports_alike(a: Seq<Vec<DictItem>>, b: Seq<Vec<DictItem>>) -> bool {
    &&& a.len() == b.len()
    &&& forall|i: int| 0 <= i < a.len() ==> is_among(entries(#[trigger] a[i]@), b)
    &&& forall|i: int, j: int|
        0 <= i < a.len() && 0 <= j < b.len() && lookup(entries(#[trigger] a[i]@), "id"@) == lookup(
            entries(#[trigger] b[j]@),
            "id"@,
        ) ==> entries(a[i]@) == entries(b[j]@)
}

/// Once a session has restored what it reported, a new snapshot reports the same again: for every
/// region the same id, capacity, size and bytes.
pub proof fn snapshot_after_restore_reports_the_same(
    session: Session,
    tracker: Option<&HostMemoryTracker>,
    contents: Map<u64, Vec<u8>>,
    dicts: Seq<Vec<DictItem>>,
    list: Vec<RegionEntry>,
    restore: SessionRestore,
    captured: spec_fn(int) -> u8,
    later: spec_fn(int) -> u8,
    contents_again: Map<u64, Vec<u8>>,
    dicts_again: Seq<Vec<DictItem>>,
)
    requires
        session.tracker_failure(tracker) is None,
        copied_from(contents, tracker->0@.regions, captured),
        reports_snapshots(dicts, tracker->0@.regions, contents),
        hands_back(list@, dicts),
        list@.len() <= usize::MAX,
        session.is_restore(tracker, RegionsArgument::List(list), restore),
        copied_from(
            contents_again,
            tracker->0@.regions,
            apply_writes(later, restore.writes@, restore.snapshots@),
        ),
        reports_snapshots(dicts_again, tracker->0@.regions, contents_again),
    ensures
        reports_alike(dicts, dicts_again),
{
    let regions = tracker->0@.regions;
    session_restore_puts_memory_back(
        session,
        tracker,
        contents,
        dicts,
        list,
        restore,
        captured,
        later,
    );
    let after = apply_writes(later, restore.writes@, restore.snapshots@);
    assert forall|id: u64| #[trigger] regions.contains_key(id) implies captured_bytes(
        contents,
        regions,
        id,
    ) == captured_bytes(contents_again, regions, id) by {
        if regions[id].byte_size != 0 {
            let base = regions[id].base_addr as int;
            let len = regions[id].byte_size as nat;
            assert forall|k: int| 0 <= k < len implies read_bytes(captured, base, len)[k]
                == read_bytes(after, base, len)[k] by {
                assert(in_region(regions[id], base + k));
                assert(in_live_region(regions, base + k));
                assert(after(base + k) == captured(base + k));
            }
            assert(read_bytes(captured, base, len) =~= read_bytes(after, base, len));
        }
    }
    let first = choose|snapshots: Seq<HostMemoryRegionSnapshot>| #[trigger]
        describes_snapshots(dicts, snapshots) && lists_snapshots(snapshots, regions, contents);
    let again = choose|snapshots: Seq<HostMemoryRegionSnapshot>| #[trigger]
        describes_snapshots(dicts_again, snapshots) && lists_snapshots(
            snapshots,
            regions,
            contents_again,
        );
    lemma_same_by_id(first, contents, again, contents_again, regions);
    lemma_same_by_id_report_alike(dicts, first, dicts_again, again);
}

/// A reported snapshot holds its id, and says no more than the snapshot's view.
proof fn lemma_snapshot_entries(snapshot: HostMemoryRegionSnapshot)
    ensures
        lookup(snapshot_entries(snapshot), "id"@) == Some(ValueView::Unsigned(snapshot.id)),
        forall|other: HostMemoryRegionSnapshot|
            other@ == snapshot@ ==> #[trigger] snapshot_entries(other) == snapshot_entries(
                snapshot,
            ),
{
    assert(snapshot_entries(snapshot)[0] == number_entry("id", snapshot.id));
    assert forall|other: HostMemoryRegionSnapshot| other@ == snapshot@ implies #[trigger]
        snapshot_entries(other) == snapshot_entries(snapshot) by {
        assert(other.id == snapshot@.id && other.byte_capacity == snapshot@.byte_capacity
            && other.bytes@ == snapshot@.bytes);
    }
}

/// One of `snapshots` is of region `id`.
spec fn holds_id(snapshots: Seq<HostMemoryRegionSnapshot>, id: u64) -> bool {
    exists|j: int| 0 <= j < snapshots.len() && #[trigger] snapshots[j].id == id
}

/// Both lists hold, for every region, the same snapshot of it.
spec fn same_by_id(
    a: Seq<HostMemoryRegionSnapshot>,
    b: Seq<HostMemoryRegionSnapshot>,
) -> bool {
    &&& a.len() == b.len()
    &&& forall|i: int, j: int|
        0 <= i < a.len() && 0 <= j < b.len() && #[trigger] a[i].id == #[trigger] b[j].id
            ==> a[i]@ == b[j]@
    &&& forall|i: int| 0 <= i < a.len() ==> holds_id(b, #[trigger] a[i].id)
}

/// Snapshots of the same regions with the same bytes are the same, region by region.
proof fn lemma_same_by_id(
    first: Seq<HostMemoryRegionSnapshot>,
    contents: Map<u64, Vec<u8>>,
    again: Seq<HostMemoryRegionSnapshot>,
    contents_again: Map<u64, Vec<u8>>,
    regions: Map<u64, RegionRecord>,
)
    requires
        lists_snapshots(first, regions, contents),
        lists_snapshots(again, regions, contents_again),
        forall|id: u64| #[trigger]
            regions.contains_key(id) ==> captured_bytes(contents, regions, id) == captured_bytes(
                contents_again,
                regions,
                id,
            ),
    ensures
        same_by_id(first, again),
{
    assert forall|i: int, j: int|
        0 <= i < first.len() && 0 <= j < again.len() && #[trigger] first[i].id
            == #[trigger] again[j].id implies first[i]@ == again[j]@ by {
        assert(regions.contains_key(first[i].id));
        assert(first[i]@.bytes =~= again[j]@.bytes);
    }
    assert forall|i: int| 0 <= i < first.len() implies holds_id(again, #[trigger] first[i].id) by {
        assert(regions.contains_key(first[i].id));
    }
}

/// Snapshots that are the same, region by region, report alike.
proof fn lemma_same_by_id_report_alike(
    dicts: Seq<Vec<DictItem>>,
    first: Seq<HostMemoryRegionSnapshot>,
    dicts_again: Seq<Vec<DictItem>>,
    again: Seq<HostMemoryRegionSnapshot>,
)
    requires
        describes_snapshots(dicts, first),
        describes_snapshots(dicts_again, again),
        same_by_id(first, again),
    ensures
        reports_alike(dicts, dicts_again),
{
    assert forall|i: int| 0 <= i < dicts.len() implies is_among(
        entries(#[trigger] dicts[i]@),
        dicts_again,
    ) by {
        let id = first[i].id;
        assert(holds_id(again, id));
        let j = choose|j: int| 0 <= j < again.len() && #[trigger] again[j].id == id;
        assert(first[i]@ == again[j]@);
        lemma_snapshot_entries(first[i]);
        assert(entries(dicts[i]@) == snapshot_entries(first[i]));
        assert(entries(dicts_again[j]@) == snapshot_entries(again[j]));
    }
    assert forall|i: int, j: int|
        0 <= i < dicts.len() && 0 <= j < dicts_again.len() && lookup(
            entries(#[trigger] dicts[i]@),
            "id"@,
        ) == lookup(entries(#[trigger] dicts_again[j]@), "id"@) implies entries(dicts[i]@)
        == entries(dicts_again[j]@) by {
        lemma_snapshot_entries(first[i]);
        lemma_snapshot_entries(again[j]);
        assert(first[i].id == again[j].id);
    }
}

/// A session says that it tracks linear memories exactly where its reports, snapshots and restores
/// have a tracker to speak of. Where it does not, they say that the platform is no Unix, or that
/// tracking was not asked for.
pub proof fn tracking_is_enabled_where_there_is_a_tracker(
    session: Session,
    tracker: Option<&HostMemoryTracker>,
)
    requires
        session.has_its_tracker(tracker),
    ensures
        session.tracker_failure(tracker) is None <==> session.tracking_enabled(),
        !session.unix ==> session.tracker_failure(tracker) == Some(
            "linear-memory tracking is only supported on Unix platforms"@,
        ),
        session.unix && !session.tracks_linear_memory ==> session.tracker_failure(tracker) == Some(
            "session was not created with track_linear_memory=True"@,
        ),
{
}

/// A setup whose steps all succeed goes through them in order and ends with the session that
/// the options make, which tracks linear memories only on a Unix. A tracker that was made where,
/// and only where, the executor was to have tracked memories is the one that the session is to
/// have. Where tracking is asked for elsewhere, the setup ends in failure once the runtime is
/// built, before an executor is made.
pub proof fn successful_setup_is_ready(
    options: SessionOptions,
    unix: bool,
    executor: SetupStep,
    callbacks: SetupStep,
    opening: SetupStep,
    limits: SetupStep,
    end: SetupStep,
)
    requires
        follows(options, unix, SetupStep::BuildRuntime, Ok(()), executor),
        follows(options, unix, executor, Ok(()), callbacks),
        follows(options, unix, callbacks, Ok(()), opening),
        follows(options, unix, opening, Ok(()), limits),
        follows(options, unix, limits, Ok(()), end),
    ensures
        options.track_linear_memory && !unix ==> executor is Failed && end is Failed,
        !(options.track_linear_memory && !unix) ==> {
            &&& executor is CreateExecutor
            &&& callbacks is CollectCallbacks
            &&& opening is OpenSession
            &&& limits is ApplyLimits
            &&& end == (SetupStep::Ready { session: options.session(unix) })
        },
        end matches SetupStep::Ready { session } ==> session.tracks_linear_memory ==> session.unix,
        end matches SetupStep::Ready { session } ==> forall|tracker: Option<&HostMemoryTracker>|
            (tracker is Some <==> executor->track_memory) ==> #[trigger] session.has_its_tracker(
                tracker,
            ),
{
}

/// A setup ends: once it is ready or has failed it stays so, and any step that fails makes it
/// fail.
pub proof fn setup_ends(
    options: SessionOptions,
    unix: bool,
    step: SetupStep,
    outcome: Result<(), String>,
    next: SetupStep,
)
    requires
        follows(options, unix, step, outcome, next),
    ensures
        step is Ready || step is Failed ==> next == step,
        outcome is Err && step !is Ready ==> next is Failed,
{
}

} // verus!
