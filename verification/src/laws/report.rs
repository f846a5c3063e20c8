//! What the dicts that a session reports say.

use vstd::prelude::*;

use crate::dict::{
    entries, number_entry, region_items, restore_items, snapshot_items, stats_items, DictItem,
    DictValue, ValueView,
};
use crate::session::{describes_regions, describes_snapshots, Session};
use crate::snapshot::{lists_snapshots, HostMemoryRegionSnapshot, HostMemoryRestoreStats};
use crate::tracker::{
    accessible_of, lists_regions, mapped_of, total, HostMemoryRegion, HostMemoryStats,
    HostMemoryTracker, RegionRecord,
};

verus! {

/// A dict says `n` under `key`: it has the key, and nothing else under it.
pub open spec fn says(dict: Seq<DictItem>, key: Seq<char>, n: int) -> bool {
    &&& exists|k: int| 0 <= k < dict.len() && (#[trigger] dict[k]).key@ == key
    &&& forall|k: int|
        0 <= k < dict.len() && (#[trigger] dict[k]).key@ == key ==> (dict[k].value matches
            DictValue::Unsigned(m) && m == n)
}

/// A dict says these bytes under `key`.
pub open spec fn says_bytes(dict: Seq<DictItem>, key: Seq<char>, bytes: Seq<u8>) -> bool {
    &&& exists|k: int| 0 <= k < dict.len() && (#[trigger] dict[k]).key@ == key
    &&& forall|k: int|
        0 <= k < dict.len() && (#[trigger] dict[k]).key@ == key ==> (dict[k].value matches
            DictValue::Bytes(held) && held@ == bytes)
}

/// A dict with the given entries, in which key `k` is no other.
proof fn lemma_says(dict: Seq<DictItem>, list: Seq<(Seq<char>, ValueView)>, k: int)
    requires
        entries(dict) == list,
        0 <= k < list.len(),
        forall|j: int| 0 <= j < list.len() && j != k ==> #[trigger] list[j].0 != list[k].0,
    ensures
        list[k].1 matches ValueView::Unsigned(n) ==> says(dict, list[k].0, n as int),
        list[k].1 matches ValueView::Bytes(bytes) ==> says_bytes(dict, list[k].0, bytes),
{
    assert(dict.len() == entries(dict).len());
    assert forall|j: int| 0 <= j < dict.len() implies (#[trigger] dict[j])@ == list[j] by {
        assert(entries(dict)[j] == dict[j]@);
    }
    assert(dict[k].key@ == list[k].0);
    assert forall|j: int| 0 <= j < dict.len() && (#[trigger] dict[j]).key@ == list[k].0 implies j
        == k by {
        assert(dict[j]@ == list[j]);
        assert(list[j].0 == dict[j].key@);
    }
}

/// The dict says each of the counters under its name.
pub open spec fn says_stats(dict: Seq<DictItem>, stats: HostMemoryStats) -> bool {
    &&& says(dict, "allocations"@, stats.allocations as int)
    &&& says(dict, "deallocations"@, stats.deallocations as int)
    &&& says(dict, "mapped_bytes"@, stats.mapped_bytes as int)
    &&& says(dict, "peak_mapped_bytes"@, stats.peak_mapped_bytes as int)
    &&& says(dict, "accessible_bytes"@, stats.accessible_bytes as int)
    &&& says(dict, "peak_accessible_bytes"@, stats.peak_accessible_bytes as int)
    &&& says(dict, "grow_count"@, stats.grow_count as int)
}

/// The dict says each field of a region under its name.
pub open spec fn says_region(dict: Seq<DictItem>, id: u64, record: RegionRecord) -> bool {
    &&& says(dict, "id"@, id as int)
    &&& says(dict, "base_addr"@, record.base_addr as int)
    &&& says(dict, "byte_size"@, record.byte_size as int)
    &&& says(dict, "byte_capacity"@, record.byte_capacity as int)
    &&& says(dict, "accessible_bytes"@, record.accessible_bytes as int)
    &&& says(dict, "mapped_bytes"@, record.mapped_bytes as int)
    &&& says(dict, "guard_bytes"@, record.guard_bytes as int)
}

/// The dict says what a snapshot holds: its id, its capacity, how many bytes there are, and the
/// bytes.
pub open spec fn says_snapshot(
    dict: Seq<DictItem>,
    id: u64,
    byte_capacity: usize,
    bytes: Seq<u8>,
) -> bool {
    &&& says(dict, "id"@, id as int)
    &&& says(dict, "byte_capacity"@, byte_capacity as int)
    &&& says(dict, "byte_size"@, bytes.len() as int)
    &&& says_bytes(dict, "bytes"@, bytes)
}

/// The dict says how many regions were restored, and how many bytes.
pub open spec fn says_restored(dict: Seq<DictItem>, regions: int, bytes: int) -> bool {
    &&& says(dict, "restored_regions"@, regions)
    &&& says(dict, "restored_bytes"@, bytes)
}

/// The keys of a report are all different.
proof fn lemma_keys_differ()
    ensures
        "allocations"@.len() == 11,
        "deallocations"@.len() == 13,
        "mapped_bytes"@.len() == 12,
        "peak_mapped_bytes"@.len() == 17,
        "accessible_bytes"@.len() == 16,
        "peak_accessible_bytes"@.len() == 21,
        "grow_count"@.len() == 10,
        "id"@.len() == 2,
        "base_addr"@.len() == 9,
        "byte_size"@.len() == 9,
        "base_addr"@ != "byte_size"@,
        "byte_capacity"@.len() == 13,
        "guard_bytes"@.len() == 11,
        "bytes"@.len() == 5,
        "restored_regions"@.len() == 16,
        "restored_bytes"@.len() == 14,
{
    reveal_strlit("allocations");
    reveal_strlit("deallocations");
    reveal_strlit("mapped_bytes");
    reveal_strlit("peak_mapped_bytes");
    reveal_strlit("accessible_bytes");
    reveal_strlit("peak_accessible_bytes");
    reveal_strlit("grow_count");
    reveal_strlit("id");
    reveal_strlit("base_addr");
    reveal_strlit("byte_size");
    reveal_strlit("byte_capacity");
    reveal_strlit("guard_bytes");
    reveal_strlit("bytes");
    reveal_strlit("restored_regions");
    reveal_strlit("restored_bytes");
    assert("base_addr"@[1] == 'a');
    assert("byte_size"@[1] == 'y');
}

/// A report of the counters says each of them.
proof fn lemma_says_stats(dict: Seq<DictItem>, stats: HostMemoryStats)
    requires
        entries(dict) == crate::dict::stats_entries(stats),
    ensures
        says_stats(dict, stats),
{
    lemma_keys_differ();
    let list = crate::dict::stats_entries(stats);
    lemma_says(dict, list, 0);
    lemma_says(dict, list, 1);
    lemma_says(dict, list, 2);
    lemma_says(dict, list, 3);
    lemma_says(dict, list, 4);
    lemma_says(dict, list, 5);
    lemma_says(dict, list, 6);
    assert(list[0] == number_entry("allocations", stats.allocations));
    assert(list[1] == number_entry("deallocations", stats.deallocations));
    assert(list[2] == number_entry("mapped_bytes", stats.mapped_bytes as u64));
    assert(list[3] == number_entry("peak_mapped_bytes", stats.peak_mapped_bytes as u64));
    assert(list[4] == number_entry("accessible_bytes", stats.accessible_bytes as u64));
    assert(list[5] == number_entry("peak_accessible_bytes", stats.peak_accessible_bytes as u64));
    assert(list[6] == number_entry("grow_count", stats.grow_count));
}

/// The record of a region, as the region shows it.
pub open spec fn record_of(region: HostMemoryRegion) -> RegionRecord {
    RegionRecord {
        base_addr: region.base_addr,
        byte_size: region.byte_size,
        byte_capacity: region.byte_capacity,
        accessible_bytes: region.accessible_bytes,
        mapped_bytes: region.mapped_bytes,
        guard_bytes: region.guard_bytes,
    }
}

/// A report of a region says each of its fields.
proof fn lemma_says_region(dict: Seq<DictItem>, region: HostMemoryRegion)
    requires
        entries(dict) == crate::dict::region_entries(region),
    ensures
        says_region(dict, region.id, record_of(region)),
        dict.len() == 7,
{
    lemma_keys_differ();
    let list = crate::dict::region_entries(region);
    assert(dict.len() == entries(dict).len());
    lemma_says(dict, list, 0);
    lemma_says(dict, list, 1);
    lemma_says(dict, list, 2);
    lemma_says(dict, list, 3);
    lemma_says(dict, list, 4);
    lemma_says(dict, list, 5);
    lemma_says(dict, list, 6);
    assert(list[0] == number_entry("id", region.id));
    assert(list[1] == number_entry("base_addr", region.base_addr as u64));
    assert(list[2] == number_entry("byte_size", region.byte_size as u64));
    assert(list[3] == number_entry("byte_capacity", region.byte_capacity as u64));
    assert(list[4] == number_entry("accessible_bytes", region.accessible_bytes as u64));
    assert(list[5] == number_entry("mapped_bytes", region.mapped_bytes as u64));
    assert(list[6] == number_entry("guard_bytes", region.guard_bytes as u64));
}

/// A report of a snapshot says what it holds.
proof fn lemma_says_snapshot(dict: Seq<DictItem>, snapshot: HostMemoryRegionSnapshot)
    requires
        entries(dict) == crate::dict::snapshot_entries(snapshot),
    ensures
        says_snapshot(dict, snapshot.id, snapshot.byte_capacity, snapshot.bytes@),
{
    lemma_keys_differ();
    let list = crate::dict::snapshot_entries(snapshot);
    lemma_says(dict, list, 0);
    lemma_says(dict, list, 1);
    lemma_says(dict, list, 2);
    lemma_says(dict, list, 3);
    assert(list[0] == number_entry("id", snapshot.id));
    assert(list[1] == number_entry("byte_capacity", snapshot.byte_capacity as u64));
    assert(list[2] == number_entry("byte_size", snapshot.bytes@.len() as u64));
    assert(list[3] == ("bytes"@, ValueView::Bytes(snapshot.bytes@)));
    assert(snapshot.bytes@.len() == snapshot.bytes.len());
}

/// A report of a restore says its two numbers.
pub(crate) proof fn lemma_says_restored(dict: Seq<DictItem>, stats: HostMemoryRestoreStats)
    requires
        entries(dict) == crate::dict::restore_entries(stats),
    ensures
        says_restored(dict, stats.restored_regions as int, stats.restored_bytes as int),
{
    lemma_keys_differ();
    let list = crate::dict::restore_entries(stats);
    lemma_says(dict, list, 0);
    lemma_says(dict, list, 1);
    assert(list[0] == number_entry("restored_regions", stats.restored_regions as u64));
    assert(list[1] == number_entry("restored_bytes", stats.restored_bytes as u64));
}

/// Each kind of dict says what it was made of, under the name of each field.
pub proof fn dicts_say_what_they_report(
    stats: &HostMemoryStats,
    stats_dict: Vec<DictItem>,
    region: &HostMemoryRegion,
    region_dict: Vec<DictItem>,
    snapshot: HostMemoryRegionSnapshot,
    snapshot_dict: Vec<DictItem>,
    restored: &HostMemoryRestoreStats,
    restore_dict: Vec<DictItem>,
)
    requires
        call_ensures(stats_items, (stats,), stats_dict),
        call_ensures(region_items, (region,), region_dict),
        call_ensures(snapshot_items, (snapshot,), snapshot_dict),
        call_ensures(restore_items, (restored,), restore_dict),
    ensures
        says_stats(stats_dict@, *stats),
        says_region(region_dict@, region.id, record_of(*region)),
        says_snapshot(snapshot_dict@, snapshot.id, snapshot.byte_capacity, snapshot.bytes@),
        says_restored(
            restore_dict@,
            restored.restored_regions as int,
            restored.restored_bytes as int,
        ),
        stats_dict@.len() == 7 && region_dict@.len() == 7 && snapshot_dict@.len() == 4
            && restore_dict@.len() == 2,
{
    lemma_says_stats(stats_dict@, *stats);
    lemma_says_region(region_dict@, *region);
    lemma_says_snapshot(snapshot_dict@, snapshot);
    lemma_says_restored(restore_dict@, *restored);
    assert(stats_dict@.len() == entries(stats_dict@).len());
    assert(snapshot_dict@.len() == entries(snapshot_dict@).len());
    assert(restore_dict@.len() == entries(restore_dict@).len());
}

/// A session's stats say each counter of its tracker.
pub proof fn reported_stats_are_those_of_the_tracker(
    session: Session,
    tracker: Option<&HostMemoryTracker>,
    r: Result<Vec<DictItem>, String>,
)
    requires
        call_ensures(Session::linear_memory_stats, (&session, tracker), r),
    ensures
        r matches Ok(dict) ==> tracker is Some && says_stats(dict@, tracker->0@.stats),
        session.unix && tracker is Some ==> r is Ok,
{
    if let Ok(dict) = r {
        lemma_says_stats(dict@, tracker->0@.stats);
    }
}

/// One of `dicts` is of region `id`.
pub open spec fn has_dict_for(dicts: Seq<Vec<DictItem>>, id: u64) -> bool {
    exists|i: int| 0 <= i < dicts.len() && says(#[trigger] dicts[i]@, "id"@, id as int)
}

/// Dict `i` says each field of a live region.
pub open spec fn says_live_region(dict: Seq<DictItem>, regions: Map<u64, RegionRecord>) -> bool {
    exists|id: u64| #[trigger] regions.contains_key(id) && says_region(dict, id, regions[id])
}

/// No two dicts are of the same region.
pub open spec fn ids_differ(dicts: Seq<Vec<DictItem>>) -> bool {
    forall|i: int, j: int, id: u64|
        0 <= i < j < dicts.len() ==> !(#[trigger] says(dicts[i]@, "id"@, id as int)
            && #[trigger] says(dicts[j]@, "id"@, id as int))
}

/// A session reports each live region once, and says of each every field of its record.
pub proof fn reported_regions_are_those_of_the_tracker(
    session: Session,
    tracker: Option<&HostMemoryTracker>,
    r: Result<Vec<Vec<DictItem>>, String>,
)
    requires
        call_ensures(Session::linear_memory_regions, (&session, tracker), r),
    ensures
        r matches Ok(dicts) ==> {
            let regions = tracker->0@.regions;
            &&& tracker is Some
            &&& dicts@.len() == regions.len()
            &&& forall|i: int|
                0 <= i < dicts@.len() ==> says_live_region(#[trigger] dicts@[i]@, regions)
            &&& ids_differ(dicts@)
            &&& forall|id: u64| #[trigger] regions.contains_key(id) ==> has_dict_for(dicts@, id)
        },
        session.unix && tracker is Some ==> r is Ok,
{
    if let Ok(dicts) = r {
        let regions = tracker->0@.regions;
        let list = choose|list: Seq<HostMemoryRegion>|
            #[trigger] describes_regions(dicts@, list) && lists_regions(list, regions);
        assert forall|i: int| 0 <= i < dicts@.len() implies says_live_region(
            #[trigger] dicts@[i]@,
            regions,
        ) by {
            lemma_says_region(dicts@[i]@, list[i]);
            assert(regions.contains_key(list[i].id));
        }
        assert forall|i: int, j: int, id: u64| 0 <= i < j < dicts@.len() implies !(
        #[trigger] says(dicts@[i]@, "id"@, id as int) && #[trigger] says(
            dicts@[j]@,
            "id"@,
            id as int,
        )) by {
            lemma_says_region(dicts@[i]@, list[i]);
            lemma_says_region(dicts@[j]@, list[j]);
            assert(list[i].id != list[j].id);
        }
        assert forall|id: u64| #[trigger] regions.contains_key(id) implies has_dict_for(
            dicts@,
            id,
        ) by {
            let i = choose|i: int| 0 <= i < list.len() && #[trigger] list[i].id == id;
            lemma_says_region(dicts@[i]@, list[i]);
        }
    }
}

/// The sum of a sequence of numbers.
pub open spec fn sum(numbers: Seq<int>) -> int {
    numbers.fold_left(0int, |a: int, b: int| a + b)
}

/// The regions among the first `n` of `list`.
spec fn listed(list: Seq<HostMemoryRegion>, n: int, regions: Map<u64, RegionRecord>) -> Map<
    u64,
    RegionRecord,
> {
    regions.restrict(Set::new(|id: u64| exists|i: int| 0 <= i < n && #[trigger] list[i].id == id))
}

/// The amounts of the first `n` listed regions add up to the sum over these regions.
proof fn lemma_listed_total(
    list: Seq<HostMemoryRegion>,
    n: int,
    regions: Map<u64, RegionRecord>,
    last: nat,
    amount: spec_fn(RegionRecord) -> nat,
    numbers: Seq<int>,
)
    requires
        lists_regions(list, regions),
        0 <= n <= list.len(),
        last <= u64::MAX,
        forall|id: u64| #[trigger] regions.contains_key(id) ==> 1 <= id <= last,
        numbers.len() == n,
        forall|i: int| 0 <= i < n ==> #[trigger] numbers[i] == amount(regions[list[i].id]),
    ensures
        sum(numbers) == total(listed(list, n, regions), last, amount),
    decreases n,
{
    if n == 0 {
        assert(listed(list, 0, regions) =~= Map::<u64, RegionRecord>::empty());
        crate::tracker::lemma_total_of_none(last, amount);
    } else {
        let m = n - 1;
        let id = list[m].id;
        let fewer = numbers.drop_last();
        assert forall|i: int| 0 <= i < m implies #[trigger] fewer[i] == amount(
            regions[list[i].id],
        ) by {
            assert(fewer[i] == numbers[i]);
        }
        lemma_listed_total(list, m, regions, last, amount, fewer);
        let before = listed(list, m, regions);
        let after = listed(list, n, regions);
        assert(regions.contains_key(list[m].id));
        assert(!before.contains_key(id)) by {
            assert forall|i: int| 0 <= i < m implies #[trigger] list[i].id != id by {
                assert(list[i].id != list[m].id);
            }
        }
        assert(after.contains_key(id)) by {
            assert(list[m].id == id);
        }
        assert forall|other: u64| other != id implies #[trigger] crate::tracker::share(
            before,
            other,
            amount,
        ) == crate::tracker::share(after, other, amount) by {
            if before.contains_key(other) {
                let i = choose|i: int| 0 <= i < m && #[trigger] list[i].id == other;
                assert(after.contains_key(other));
            }
            if after.contains_key(other) {
                let i = choose|i: int| 0 <= i < n && #[trigger] list[i].id == other;
                assert(i < m);
            }
        }
        crate::tracker::lemma_total_change(before, after, id, last, amount);
        assert(sum(numbers) == sum(fewer) + numbers.last());
    }
}

/// What a session reports adds up: the mapped bytes of the reported regions are together the mapped
/// bytes of the reported stats, and so are the accessible bytes where they are exact. As many
/// regions are reported as were allocated and not deallocated.
pub proof fn reports_add_up(
    session: Session,
    tracker: Option<&HostMemoryTracker>,
    stats: Vec<DictItem>,
    dicts: Vec<Vec<DictItem>>,
    mapped: Seq<int>,
    accessible: Seq<int>,
)
    requires
        tracker is Some ==> tracker->0@.wf(),
        call_ensures(Session::linear_memory_stats, (&session, tracker), Ok(stats)),
        call_ensures(Session::linear_memory_regions, (&session, tracker), Ok(dicts)),
        mapped.len() == dicts@.len(),
        accessible.len() == dicts@.len(),
        forall|i: int|
            0 <= i < dicts@.len() ==> says(
                #[trigger] dicts@[i]@,
                "mapped_bytes"@,
                mapped[i],
            ) && says(dicts@[i]@, "accessible_bytes"@, accessible[i]),
    ensures
        says(stats@, "mapped_bytes"@, sum(mapped)),
        tracker->0@.accessible_is_exact() ==> says(stats@, "accessible_bytes"@, sum(accessible)),
        says(
            stats@,
            "deallocations"@,
            tracker->0@.stats.allocations - dicts@.len(),
        ),
{
    let view = tracker->0@;
    let regions = view.regions;
    lemma_says_stats(stats@, view.stats);
    let list = choose|list: Seq<HostMemoryRegion>|
        #[trigger] describes_regions(dicts@, list) && lists_regions(list, regions);
    assert forall|i: int| 0 <= i < list.len() implies #[trigger] mapped[i] == mapped_of()(
        regions[list[i].id],
    ) by {
        lemma_says_region(dicts@[i]@, list[i]);
        assert(regions.contains_key(list[i].id));
        assert(says(dicts@[i]@, "mapped_bytes"@, mapped[i]));
    }
    assert forall|i: int| 0 <= i < list.len() implies #[trigger] accessible[i] == accessible_of()(
        regions[list[i].id],
    ) by {
        lemma_says_region(dicts@[i]@, list[i]);
        assert(regions.contains_key(list[i].id));
        assert(says(dicts@[i]@, "accessible_bytes"@, accessible[i]));
    }
    let n = list.len() as int;
    assert(listed(list, n, regions) =~= regions) by {
        assert forall|id: u64| #[trigger] regions.contains_key(id) implies listed(
            list,
            n,
            regions,
        ).contains_key(id) by {
            let i = choose|i: int| 0 <= i < list.len() && #[trigger] list[i].id == id;
            assert(list[i].id == id);
        }
    }
    lemma_listed_total(list, n, regions, view.next_id as nat, mapped_of(), mapped);
    lemma_listed_total(list, n, regions, view.next_id as nat, accessible_of(), accessible);
}

/// Dict `i` says what was captured of a live region: its capacity, and of its bytes as many as it
/// has, as the host copied them.
pub open spec fn says_captured(
    dict: Seq<DictItem>,
    regions: Map<u64, RegionRecord>,
    contents: Map<u64, Vec<u8>>,
) -> bool {
    exists|id: u64, bytes: Seq<u8>|
        #![trigger says_snapshot(dict, id, regions[id].byte_capacity, bytes)]
        {
            &&& regions.contains_key(id)
            &&& bytes.len() == regions[id].byte_size
            &&& regions[id].byte_size > 0 ==> bytes == contents[id]@
            &&& says_snapshot(dict, id, regions[id].byte_capacity, bytes)
        }
}

/// A session reports what was captured of each live region, once.
pub proof fn reported_snapshots_are_the_captured_bytes(
    session: Session,
    tracker: Option<&HostMemoryTracker>,
    contents: std::collections::HashMap<u64, Vec<u8>>,
    r: Result<Vec<Vec<DictItem>>, String>,
)
    requires
        tracker is Some ==> crate::snapshot::covers_regions(contents@, tracker->0@.regions),
        call_ensures(
            Session::snapshot_linear_memory_regions,
            (&session, tracker, contents),
            r,
        ),
    ensures
        r matches Ok(dicts) ==> {
            let regions = tracker->0@.regions;
            &&& tracker is Some
            &&& dicts@.len() == regions.len()
            &&& forall|i: int|
                0 <= i < dicts@.len() ==> says_captured(#[trigger] dicts@[i]@, regions, contents@)
            &&& ids_differ(dicts@)
            &&& forall|id: u64| #[trigger] regions.contains_key(id) ==> has_dict_for(dicts@, id)
        },
        session.unix && tracker is Some ==> r is Ok,
{
    if let Ok(dicts) = r {
        let regions = tracker->0@.regions;
        let list = choose|list: Seq<HostMemoryRegionSnapshot>| #[trigger]
            describes_snapshots(dicts@, list) && lists_snapshots(list, regions, contents@);
        assert forall|i: int| 0 <= i < dicts@.len() implies says_captured(
            #[trigger] dicts@[i]@,
            regions,
            contents@,
        ) by {
            lemma_says_snapshot(dicts@[i]@, list[i]);
            let id = list[i].id;
            assert(regions.contains_key(list[i].id));
            assert(says_snapshot(
                dicts@[i]@,
                id,
                regions[id].byte_capacity,
                list[i].bytes@,
            ));
        }
        assert forall|i: int, j: int, id: u64| 0 <= i < j < dicts@.len() implies !(
        #[trigger] says(dicts@[i]@, "id"@, id as int) && #[trigger] says(
            dicts@[j]@,
            "id"@,
            id as int,
        )) by {
            lemma_says_snapshot(dicts@[i]@, list[i]);
            lemma_says_snapshot(dicts@[j]@, list[j]);
            assert(list[i].id != list[j].id);
        }
        assert forall|id: u64| #[trigger] regions.contains_key(id) implies has_dict_for(
            dicts@,
            id,
        ) by {
            let i = choose|i: int| 0 <= i < list.len() && #[trigger] list[i].id == id;
            lemma_says_snapshot(dicts@[i]@, list[i]);
        }
    }
}

} // verus!
