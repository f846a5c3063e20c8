//! The tracker of live linear memories: one record per live region, and aggregate
//! counters over all of them.

use std::collections::HashMap;

use vstd::prelude::*;
use vstd::std_specs::iter::IteratorSpec;

verus! {

broadcast use vstd::std_specs::hash::group_hash_axioms;

/// Aggregate counters for host-managed Wasm linear memories.
#[derive(Debug, Clone, Copy, PartialEq, Eq, Structural)]
pub struct HostMemoryStats {
    /// Number of linear-memory allocations created.
    pub allocations: u64,
    /// Number of linear-memory allocations dropped.
    pub deallocations: u64,
    /// Currently mapped bytes, including guard regions.
    pub mapped_bytes: usize,
    /// Peak mapped bytes, including guard regions.
    pub peak_mapped_bytes: usize,
    /// Currently accessible bytes committed with read/write permissions.
    pub accessible_bytes: usize,
    /// Peak accessible bytes.
    pub peak_accessible_bytes: usize,
    /// Number of successful grow operations.
    pub grow_count: u64,
}

/// Every counter at zero.
pub open spec fn no_stats() -> HostMemoryStats {
    HostMemoryStats {
        allocations: 0,
        deallocations: 0,
        mapped_bytes: 0,
        peak_mapped_bytes: 0,
        accessible_bytes: 0,
        peak_accessible_bytes: 0,
        grow_count: 0,
    }
}

impl Default for HostMemoryStats {
    fn default() -> (r: Self)
        ensures
            r == no_stats(),
    {
        HostMemoryStats {
            allocations: 0,
            deallocations: 0,
            mapped_bytes: 0,
            peak_mapped_bytes: 0,
            accessible_bytes: 0,
            peak_accessible_bytes: 0,
            grow_count: 0,
        }
    }
}

/// Metadata for one live host-managed linear memory.
#[derive(Debug, Clone, Copy, PartialEq, Eq, Structural)]
pub struct HostMemoryRegion {
    /// Stable region id allocated by [`HostMemoryTracker`].
    pub id: u64,
    /// Base address, for diagnostics and quiescent snapshot code.
    pub base_addr: usize,
    /// Current Wasm byte size.
    pub byte_size: usize,
    /// Current byte capacity before relocation would be required.
    pub byte_capacity: usize,
    /// Currently page-accessible byte count.
    pub accessible_bytes: usize,
    /// Mapped bytes including guard region.
    pub mapped_bytes: usize,
    /// Guard bytes after the capacity region.
    pub guard_bytes: usize,
}

/// What the tracker keeps of one live region.
#[derive(Debug, Clone, Copy, PartialEq, Eq, Structural)]
pub struct RegionRecord {
    /// Base address of the mapping.
    pub base_addr: usize,
    /// Current Wasm byte size.
    pub byte_size: usize,
    /// Bytes that the memory can grow to in place.
    pub byte_capacity: usize,
    /// Page-accessible bytes.
    pub accessible_bytes: usize,
    /// Mapped bytes including the guard region.
    pub mapped_bytes: usize,
    /// Guard bytes after the capacity region.
    pub guard_bytes: usize,
}

impl RegionRecord {
    /// The record, with its id, as callers see it.
    pub open spec fn described(self, id: u64) -> HostMemoryRegion {
        HostMemoryRegion {
            id,
            base_addr: self.base_addr,
            byte_size: self.byte_size,
            byte_capacity: self.byte_capacity,
            accessible_bytes: self.accessible_bytes,
            mapped_bytes: self.mapped_bytes,
            guard_bytes: self.guard_bytes,
        }
    }
}

/// The mapped bytes of a region.
pub open spec fn mapped_of() -> spec_fn(RegionRecord) -> nat {
    |r: RegionRecord| r.mapped_bytes as nat
}

/// The accessible bytes of a region.
pub open spec fn accessible_of() -> spec_fn(RegionRecord) -> nat {
    |r: RegionRecord| r.accessible_bytes as nat
}

/// What region `id` adds to a sum over the live regions: nothing if it is not live.
pub open spec fn share(
    regions: Map<u64, RegionRecord>,
    id: u64,
    amount: spec_fn(RegionRecord) -> nat,
) -> nat {
    if regions.contains_key(id) {
        amount(regions[id])
    } else {
        0
    }
}

/// The sum of `amount` over the live regions with ids from 1 to `n`.
pub open spec fn total(
    regions: Map<u64, RegionRecord>,
    n: nat,
    amount: spec_fn(RegionRecord) -> nat,
) -> nat
    decreases n,
{
    if n == 0 {
        0
    } else {
        total(regions, (n - 1) as nat, amount) + share(regions, n as u64, amount)
    }
}

/// `list` describes every live region exactly once, in some order.
pub open spec fn lists_regions(
    list: Seq<HostMemoryRegion>,
    regions: Map<u64, RegionRecord>,
) -> bool {
    &&& list.len() == regions.len()
    &&& forall|i: int|
        0 <= i < list.len() ==> regions.contains_key(#[trigger] list[i].id) && list[i]
            == regions[list[i].id].described(list[i].id)
    &&& forall|i: int, j: int|
        0 <= i < j < list.len() ==> #[trigger] list[i].id != #[trigger] list[j].id
    &&& forall|id: u64| #[trigger]
        regions.contains_key(id) ==> exists|i: int| 0 <= i < list.len() && #[trigger] list[i].id == id
}

/// The larger of two sizes.
pub open spec fn larger(a: usize, b: usize) -> usize {
    if a >= b {
        a
    } else {
        b
    }
}

/// The tracker as a mathematical value.
pub struct TrackerView {
    /// The last id handed out; ids start at 1.
    pub next_id: u64,
    /// The aggregate counters.
    pub stats: HostMemoryStats,
    /// The live regions by id.
    pub regions: Map<u64, RegionRecord>,
}

impl TrackerView {
    /// A tracker that has seen no memory.
    pub open spec fn fresh() -> TrackerView {
        TrackerView { next_id: 0, stats: no_stats(), regions: Map::empty() }
    }

    /// What holds of every tracker: ids of live regions are among those handed out; the
    /// counters of allocations and deallocations account for the live regions; the
    /// mapped bytes are the sum over the live regions, and the accessible bytes cover
    /// theirs; no peak is below its current value.
    pub open spec fn wf(self) -> bool {
        &&& self.regions.dom().finite()
        &&& forall|id: u64| #[trigger] self.regions.contains_key(id) ==> 1 <= id <= self.next_id
        &&& self.stats.allocations == self.next_id
        &&& self.stats.deallocations + self.regions.len() == self.stats.allocations
        &&& self.stats.mapped_bytes == total(self.regions, self.next_id as nat, mapped_of())
        &&& self.stats.accessible_bytes >= total(
            self.regions,
            self.next_id as nat,
            accessible_of(),
        )
        &&& self.stats.peak_mapped_bytes >= self.stats.mapped_bytes
        &&& self.stats.peak_accessible_bytes >= self.stats.accessible_bytes
    }

    /// The accessible bytes are exactly those of the live regions.
    pub open spec fn accessible_is_exact(self) -> bool {
        self.stats.accessible_bytes == total(self.regions, self.next_id as nat, accessible_of())
    }

    /// There is an id left for `record`, and the counters have room for it.
    pub open spec fn has_room_for(self, record: RegionRecord) -> bool {
        &&& self.next_id < u64::MAX
        &&& self.stats.mapped_bytes + record.mapped_bytes <= usize::MAX
        &&& self.stats.accessible_bytes + record.accessible_bytes <= usize::MAX
    }

    /// The id of the next region.
    pub open spec fn fresh_id(self) -> u64 {
        (self.next_id + 1) as u64
    }

    /// The tracker once `record` has been added under the next id.
    pub open spec fn after_allocation(self, record: RegionRecord) -> TrackerView {
        let mapped = (self.stats.mapped_bytes + record.mapped_bytes) as usize;
        let accessible = (self.stats.accessible_bytes + record.accessible_bytes) as usize;
        TrackerView {
            next_id: self.fresh_id(),
            stats: HostMemoryStats {
                allocations: (self.stats.allocations + 1) as u64,
                mapped_bytes: mapped,
                peak_mapped_bytes: larger(self.stats.peak_mapped_bytes, mapped),
                accessible_bytes: accessible,
                peak_accessible_bytes: larger(self.stats.peak_accessible_bytes, accessible),
                ..self.stats
            },
            regions: self.regions.insert(self.fresh_id(), record),
        }
    }

    /// How many bytes become accessible when region `id` goes to `accessible_bytes`.
    pub open spec fn newly_accessible(self, id: u64, accessible_bytes: usize) -> int {
        if accessible_bytes > self.regions[id].accessible_bytes {
            accessible_bytes - self.regions[id].accessible_bytes
        } else {
            0
        }
    }

    /// The counters have room for region `id` to go to `accessible_bytes`.
    pub open spec fn has_room_to_grow(self, id: u64, accessible_bytes: usize) -> bool {
        self.stats.accessible_bytes + self.newly_accessible(id, accessible_bytes) <= usize::MAX
    }

    /// The tracker once region `id` has the given sizes.
    pub open spec fn after_growth(
        self,
        id: u64,
        byte_size: usize,
        accessible_bytes: usize,
    ) -> TrackerView {
        let accessible = (self.stats.accessible_bytes + self.newly_accessible(
            id,
            accessible_bytes,
        )) as usize;
        TrackerView {
            stats: HostMemoryStats {
                accessible_bytes: accessible,
                peak_accessible_bytes: larger(self.stats.peak_accessible_bytes, accessible),
                ..self.stats
            },
            regions: self.regions.insert(
                id,
                RegionRecord { byte_size, accessible_bytes, ..self.regions[id] },
            ),
            ..self
        }
    }

    /// The tracker once region `id` is gone; unchanged if it was not live.
    pub open spec fn after_deallocation(self, id: u64) -> TrackerView {
        if self.regions.contains_key(id) {
            TrackerView {
                stats: HostMemoryStats {
                    deallocations: (self.stats.deallocations + 1) as u64,
                    mapped_bytes: (self.stats.mapped_bytes
                        - self.regions[id].mapped_bytes) as usize,
                    accessible_bytes: (self.stats.accessible_bytes
                        - self.regions[id].accessible_bytes) as usize,
                    ..self.stats
                },
                regions: self.regions.remove(id),
                ..self
            }
        } else {
            self
        }
    }
}

/// A sum over the ids up to `n` reads the regions at these ids only.
proof fn lemma_total_frame(
    before: Map<u64, RegionRecord>,
    after: Map<u64, RegionRecord>,
    n: nat,
    amount: spec_fn(RegionRecord) -> nat,
)
    requires
        n <= u64::MAX,
        forall|id: u64|
            1 <= id <= n ==> #[trigger] share(before, id, amount) == share(after, id, amount),
    ensures
        total(before, n, amount) == total(after, n, amount),
    decreases n,
{
    if n > 0 {
        lemma_total_frame(before, after, (n - 1) as nat, amount);
        assert(share(before, n as u64, amount) == share(after, n as u64, amount));
    }
}

/// Changing one region changes the sum by the change of its share.
pub(crate) proof fn lemma_total_change(
    before: Map<u64, RegionRecord>,
    after: Map<u64, RegionRecord>,
    k: u64,
    n: nat,
    amount: spec_fn(RegionRecord) -> nat,
)
    requires
        1 <= k <= n <= u64::MAX,
        forall|id: u64|
            id != k ==> #[trigger] share(before, id, amount) == share(after, id, amount),
    ensures
        total(after, n, amount) - total(before, n, amount) == share(after, k, amount) - share(
            before,
            k,
            amount,
        ),
        total(before, n, amount) >= share(before, k, amount),
    decreases n,
{
    if n == k {
        lemma_total_frame(before, after, (n - 1) as nat, amount);
    } else {
        lemma_total_change(before, after, k, (n - 1) as nat, amount);
        assert(share(before, n as u64, amount) == share(after, n as u64, amount));
    }
}

/// Adding a region under a fresh id adds its amount to the sum.
proof fn lemma_total_insert(
    regions: Map<u64, RegionRecord>,
    n: nat,
    record: RegionRecord,
    amount: spec_fn(RegionRecord) -> nat,
)
    requires
        n < u64::MAX,
        !regions.contains_key((n + 1) as u64),
    ensures
        total(regions.insert((n + 1) as u64, record), n + 1, amount) == total(regions, n, amount)
            + amount(record),
{
    let after = regions.insert((n + 1) as u64, record);
    assert forall|id: u64| 1 <= id <= n implies #[trigger] share(regions, id, amount) == share(
        after,
        id,
        amount,
    ) by {}
    lemma_total_frame(regions, after, n, amount);
}

/// A sum of amounts that are no larger is no larger.
pub(crate) proof fn lemma_total_le(
    regions: Map<u64, RegionRecord>,
    n: nat,
    less: spec_fn(RegionRecord) -> nat,
    more: spec_fn(RegionRecord) -> nat,
)
    requires
        forall|id: u64| #[trigger] share(regions, id, less) <= share(regions, id, more),
    ensures
        total(regions, n, less) <= total(regions, n, more),
    decreases n,
{
    if n > 0 {
        lemma_total_le(regions, (n - 1) as nat, less, more);
        assert(share(regions, n as u64, less) <= share(regions, n as u64, more));
    }
}

/// A sum over no regions is zero.
pub(crate) proof fn lemma_total_of_none(n: nat, amount: spec_fn(RegionRecord) -> nat)
    ensures
        total(Map::<u64, RegionRecord>::empty(), n, amount) == 0,
    decreases n,
{
    if n > 0 {
        lemma_total_of_none((n - 1) as nat, amount);
    }
}

/// An allocation keeps what holds of every tracker.
pub proof fn allocation_keeps_wf(t: TrackerView, record: RegionRecord)
    requires
        t.wf(),
        t.has_room_for(record),
    ensures
        t.after_allocation(record).wf(),
        t.accessible_is_exact() ==> t.after_allocation(record).accessible_is_exact(),
{
    lemma_total_insert(t.regions, t.next_id as nat, record, mapped_of());
    lemma_total_insert(t.regions, t.next_id as nat, record, accessible_of());
}

/// A growth keeps what holds of every tracker. The accessible bytes stay exact unless
/// the region goes to fewer accessible bytes than it had.
pub proof fn growth_keeps_wf(t: TrackerView, id: u64, byte_size: usize, accessible_bytes: usize)
    requires
        t.wf(),
        t.regions.contains_key(id),
        t.has_room_to_grow(id, accessible_bytes),
    ensures
        t.after_growth(id, byte_size, accessible_bytes).wf(),
        t.accessible_is_exact() && accessible_bytes >= t.regions[id].accessible_bytes
            ==> t.after_growth(id, byte_size, accessible_bytes).accessible_is_exact(),
{
    let after = t.after_growth(id, byte_size, accessible_bytes);
    lemma_total_change(t.regions, after.regions, id, t.next_id as nat, mapped_of());
    lemma_total_change(t.regions, after.regions, id, t.next_id as nat, accessible_of());
    assert(after.regions.dom() =~= t.regions.dom());
}

/// A deallocation keeps what holds of every tracker, and takes off no more than there is.
pub proof fn deallocation_keeps_wf(t: TrackerView, id: u64)
    requires
        t.wf(),
    ensures
        t.after_deallocation(id).wf(),
        t.accessible_is_exact() ==> t.after_deallocation(id).accessible_is_exact(),
        t.regions.contains_key(id) ==> t.regions[id].mapped_bytes <= t.stats.mapped_bytes
            && t.regions[id].accessible_bytes <= t.stats.accessible_bytes
            && t.stats.deallocations < u64::MAX,
{
    if t.regions.contains_key(id) {
        let after = t.after_deallocation(id);
        lemma_total_change(t.regions, after.regions, id, t.next_id as nat, mapped_of());
        lemma_total_change(t.regions, after.regions, id, t.next_id as nat, accessible_of());
    }
}

/// Adds `delta` to `current`, and raises `peak` to the new value if that is higher.
pub fn add_with_peak(current: &mut usize, peak: &mut usize, delta: usize)
    requires
        *old(current) + delta <= usize::MAX,
    ensures
        *final(current) == *old(current) + delta,
        *final(peak) == larger(*old(peak), *final(current)),
{
    *current = *current + delta;
    if *current > *peak {
        *peak = *current;
    }
}

/// Tracks live linear memories allocated through a
/// [`TrackingMemoryCreator`](crate::memory::TrackingMemoryCreator).
#[derive(Debug)]
pub struct HostMemoryTracker {
    next_id: u64,
    stats: HostMemoryStats,
    regions: HashMap<u64, RegionRecord>,
}

impl View for HostMemoryTracker {
    type V = TrackerView;

    closed spec fn view(&self) -> TrackerView {
        TrackerView { next_id: self.next_id, stats: self.stats, regions: self.regions@ }
    }
}

impl Default for HostMemoryTracker {
    fn default() -> (r: Self)
        ensures
            r@ == TrackerView::fresh(),
            r@.wf(),
    {
        HostMemoryTracker { next_id: 0, stats: HostMemoryStats::default(), regions: HashMap::new() }
    }
}

impl HostMemoryTracker {
    /// Return aggregate host-memory stats.
    #[must_use]
    pub fn stats(&self) -> (r: HostMemoryStats)
        ensures
            r == self@.stats,
    {
        self.stats
    }

    /// The record of region `id`, if it is live.
    pub fn region(&self, id: u64) -> (r: Option<RegionRecord>)
        ensures
            match r {
                Some(record) => self@.regions.contains_key(id) && record == self@.regions[id],
                None => !self@.regions.contains_key(id),
            },
    {
        match self.regions.get(&id) {
            Some(record) => Some(*record),
            None => None,
        }
    }

    /// Return metadata for all currently live host-managed linear memories, in no
    /// particular order.
    #[must_use]
    pub fn live_regions(&self) -> (r: Vec<HostMemoryRegion>)
        ensures
            lists_regions(r@, self@.regions),
    {
        let mut list: Vec<HostMemoryRegion> = Vec::new();
        let entries = self.regions.iter();
        let ghost pairs = entries.remaining();
        for entry in it: entries
            invariant
                it.seq() == pairs,
                list.len() == it.index(),
                forall|i: int|
                    0 <= i < list.len() ==> #[trigger] list[i] == (*pairs[i].1).described(
                        *pairs[i].0,
                    ),
        {
            let (id, region) = entry;
            list.push(
                HostMemoryRegion {
                    id: *id,
                    base_addr: region.base_addr,
                    byte_size: region.byte_size,
                    byte_capacity: region.byte_capacity,
                    accessible_bytes: region.accessible_bytes,
                    mapped_bytes: region.mapped_bytes,
                    guard_bytes: region.guard_bytes,
                },
            );
        }
        proof {
            let regions = self.regions@;
            assert forall|i: int| 0 <= i < list.len() implies regions.contains_key(
                #[trigger] list[i].id,
            ) && list[i] == regions[list[i].id].described(list[i].id) by {
                assert(regions.contains_key(*pairs[i].0));
            }
            assert forall|i: int, j: int| 0 <= i < j < list.len() implies #[trigger] list[i].id
                != #[trigger] list[j].id by {
                assert(regions.contains_key(*pairs[i].0));
                assert(regions.contains_key(*pairs[j].0));
                assert(pairs[i] != pairs[j]);
            }
            assert forall|id: u64| #[trigger] regions.contains_key(id) implies exists|i: int|
                0 <= i < list.len() && #[trigger] list[i].id == id by {
                assert(pairs.contains((&id, &regions[id])));
                let i = choose|i: int| 0 <= i < pairs.len() && pairs[i] == (&id, &regions[id]);
                assert(list[i].id == id);
            }
        }
        list
    }

    /// Adds a live region under the next id, which is returned.
    pub fn record_allocation(
        &mut self,
        base_addr: usize,
        byte_size: usize,
        byte_capacity: usize,
        accessible_bytes: usize,
        mapped_bytes: usize,
        guard_bytes: usize,
    ) -> (id: u64)
        requires
            old(self)@.wf(),
            old(self)@.has_room_for(
                (RegionRecord {
                    base_addr,
                    byte_size,
                    byte_capacity,
                    accessible_bytes,
                    mapped_bytes,
                    guard_bytes,
                }),
            ),
        ensures
            id == old(self)@.fresh_id(),
            final(self)@ == old(self)@.after_allocation(
                (RegionRecord {
                    base_addr,
                    byte_size,
                    byte_capacity,
                    accessible_bytes,
                    mapped_bytes,
                    guard_bytes,
                }),
            ),
            final(self)@.wf(),
    {
        let record = RegionRecord {
            base_addr,
            byte_size,
            byte_capacity,
            accessible_bytes,
            mapped_bytes,
            guard_bytes,
        };
        proof {
            allocation_keeps_wf(self@, record);
        }
        let id: u64 = self.next_id + 1;
        self.next_id = id;
        self.stats.allocations = self.stats.allocations + 1;
        add_with_peak(
            &mut self.stats.mapped_bytes,
            &mut self.stats.peak_mapped_bytes,
            mapped_bytes,
        );
        add_with_peak(
            &mut self.stats.accessible_bytes,
            &mut self.stats.peak_accessible_bytes,
            accessible_bytes,
        );
        self.regions.insert(id, record);
        id
    }

    /// Sets the sizes of live region `id`.
    pub fn record_growth_locked(&mut self, id: u64, byte_size: usize, accessible_bytes: usize)
        requires
            old(self)@.wf(),
            old(self)@.regions.contains_key(id),
            old(self)@.has_room_to_grow(id, accessible_bytes),
        ensures
            final(self)@ == old(self)@.after_growth(id, byte_size, accessible_bytes),
            final(self)@.wf(),
    {
        proof {
            growth_keeps_wf(self@, id, byte_size, accessible_bytes);
        }
        if let Some(found) = self.regions.get(&id) {
            let record: RegionRecord = *found;
            if accessible_bytes > record.accessible_bytes {
                add_with_peak(
                    &mut self.stats.accessible_bytes,
                    &mut self.stats.peak_accessible_bytes,
                    accessible_bytes - record.accessible_bytes,
                );
            }
            self.regions.insert(id, RegionRecord { byte_size, accessible_bytes, ..record });
        }
    }

    /// Counts one successful grow operation.
    pub(crate) fn count_growth(&mut self)
        requires
            old(self)@.wf(),
        ensures
            final(self)@ == (TrackerView {
                stats: HostMemoryStats {
                    grow_count: wrapped_successor(old(self)@.stats.grow_count),
                    ..old(self)@.stats
                },
                ..old(self)@
            }),
            final(self)@.wf(),
    {
        self.stats.grow_count = self.stats.grow_count.wrapping_add(1);
    }

    /// Removes region `id` and what it added to the current byte counts. An id that is
    /// not live is ignored.
    pub fn record_deallocation(&mut self, id: u64)
        requires
            old(self)@.wf(),
        ensures
            final(self)@ == old(self)@.after_deallocation(id),
            final(self)@.wf(),
    {
        proof {
            deallocation_keeps_wf(self@, id);
        }
        if let Some(region) = self.regions.remove(&id) {
            self.stats.deallocations = self.stats.deallocations + 1;
            self.stats.mapped_bytes = self.stats.mapped_bytes - region.mapped_bytes;
            self.stats.accessible_bytes = self.stats.accessible_bytes - region.accessible_bytes;
        } else {
            assert(self.regions@ =~= old(self).regions@);
        }
    }
}

/// The next value of a counter that starts over after the last.
pub open spec fn wrapped_successor(n: u64) -> u64 {
    if n == u64::MAX {
        0
    } else {
        (n + 1) as u64
    }
}

} // verus!
