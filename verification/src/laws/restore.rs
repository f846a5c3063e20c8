//! What capturing and restoring come to.

use std::collections::HashMap;

use vstd::prelude::*;

use crate::dict::{
    entries, entry_snapshot, first_error, lookup, read_regions, stands_for, DictItem, DictValue,
    ErrorKind, RegionArgumentError, RegionEntry, RegionsArgument, ValueView,
};
use crate::laws::report::{says_restored, sum};
use crate::laws::session::says_no_tracker;
use crate::session::{carries, Session, SessionError, SessionRestore};
use crate::snapshot::{
    first_refused, refusal, restore_writes, restores, total_bytes, HostMemoryRead,
    HostMemoryRegionSnapshot, HostMemoryRestore, HostMemoryRestoreStats, HostMemoryWrite,
    RestoreError, RestoreMode,
};
use crate::text::decimal;
use crate::tracker::{HostMemoryTracker, RegionRecord};

verus! {

/// The host is asked to read all bytes of each live region that has any, once.
pub proof fn all_live_bytes_are_read(
    tracker: HostMemoryTracker,
    reads: Vec<HostMemoryRead>,
    id: u64,
)
    requires
        call_ensures(HostMemoryTracker::snapshot_reads, (&tracker,), reads),
    ensures
        forall|i: int|
            0 <= i < reads@.len() ==> {
                let record = tracker@.regions[reads@[i].id];
                &&& tracker@.regions.contains_key(#[trigger] reads@[i].id)
                &&& reads@[i].base_addr == record.base_addr
                &&& reads@[i].byte_size == record.byte_size
                &&& reads@[i].byte_size > 0
            },
        forall|i: int, j: int|
            0 <= i < j < reads@.len() ==> #[trigger] reads@[i].id != #[trigger] reads@[j].id,
        tracker@.regions.contains_key(id) && tracker@.regions[id].byte_size > 0 ==> exists|i: int|
            0 <= i < reads@.len() && #[trigger] reads@[i].id == id,
{
    if tracker@.regions.contains_key(id) && tracker@.regions[id].byte_size > 0 {
        assert(tracker@.regions.contains_key(id) && tracker@.regions[id].byte_size != 0);
    }
}

/// A snapshot holds each live region once, with its capacity and with all of its bytes, as the host
/// copied them.
pub proof fn snapshot_holds_all_live_bytes(
    tracker: HostMemoryTracker,
    contents: HashMap<u64, Vec<u8>>,
    snapshots: Vec<HostMemoryRegionSnapshot>,
    id: u64,
)
    requires
        forall|live: u64| #[trigger]
            tracker@.regions.contains_key(live) && tracker@.regions[live].byte_size > 0
                ==> contents@.contains_key(live) && contents@[live]@.len()
                == tracker@.regions[live].byte_size,
        call_ensures(HostMemoryTracker::snapshot_live_regions, (&tracker, contents), snapshots),
    ensures
        snapshots@.len() == tracker@.regions.len(),
        forall|i: int|
            0 <= i < snapshots@.len() ==> {
                let record = tracker@.regions[snapshots@[i].id];
                &&& tracker@.regions.contains_key(#[trigger] snapshots@[i].id)
                &&& snapshots@[i].byte_capacity == record.byte_capacity
                &&& snapshots@[i].bytes@.len() == record.byte_size
                &&& record.byte_size > 0 ==> snapshots@[i].bytes@ == contents@[snapshots@[i].id]@
            },
        forall|i: int, j: int|
            0 <= i < j < snapshots@.len() ==> #[trigger] snapshots@[i].id
                != #[trigger] snapshots@[j].id,
        tracker@.regions.contains_key(id) ==> exists|i: int|
            0 <= i < snapshots@.len() && #[trigger] snapshots@[i].id == id,
{
    assert forall|i: int| 0 <= i < snapshots@.len() implies {
        let record = tracker@.regions[snapshots@[i].id];
        &&& tracker@.regions.contains_key(#[trigger] snapshots@[i].id)
        &&& snapshots@[i].byte_capacity == record.byte_capacity
        &&& snapshots@[i].bytes@.len() == record.byte_size
        &&& record.byte_size > 0 ==> snapshots@[i].bytes@ == contents@[snapshots@[i].id]@
    } by {
        let live = snapshots@[i].id;
        assert(tracker@.regions.contains_key(snapshots@[i].id));
        if tracker@.regions[live].byte_size > 0 {
            assert(tracker@.regions.contains_key(live) && tracker@.regions[live].byte_size > 0);
        }
    }
}

/// A new summary counts nothing.
pub proof fn new_summary_counts_nothing(stats: HostMemoryRestoreStats)
    requires
        call_ensures(HostMemoryRestoreStats::default, (), stats),
    ensures
        stats.restored_regions == 0 && stats.restored_bytes == 0,
{
}

/// The snapshot has the size and the capacity of its region, which is live.
pub open spec fn has_live_shape(
    regions: Map<u64, RegionRecord>,
    snapshot: HostMemoryRegionSnapshot,
) -> bool {
    &&& regions.contains_key(snapshot.id)
    &&& snapshot.bytes@.len() == regions[snapshot.id].byte_size
    &&& snapshot.byte_capacity == regions[snapshot.id].byte_capacity
}

/// A restore takes the snapshot: it has the live shape, which for the growing restore lies in its
/// capacity.
pub open spec fn takes(
    mode: RestoreMode,
    regions: Map<u64, RegionRecord>,
    snapshot: HostMemoryRegionSnapshot,
) -> bool {
    &&& has_live_shape(regions, snapshot)
    &&& mode is Growing ==> snapshot.bytes@.len() <= snapshot.byte_capacity
}

/// What is said of a snapshot whose region is not live.
pub open spec fn not_live_text(id: u64) -> Seq<char> {
    "linear-memory region "@ + decimal(id as nat) + " is not live"@
}

/// What is said of a snapshot of another capacity.
pub open spec fn other_capacity_text(
    live: RegionRecord,
    snapshot: HostMemoryRegionSnapshot,
) -> Seq<char> {
    "linear-memory region "@ + decimal(snapshot.id as nat) + " capacity mismatch: snapshot="@
        + decimal(snapshot.byte_capacity as nat) + " live="@ + decimal(live.byte_capacity as nat)
}

/// `message` says why a restore does not take the snapshot.
pub open spec fn says_why_not(
    mode: RestoreMode,
    regions: Map<u64, RegionRecord>,
    snapshot: HostMemoryRegionSnapshot,
    message: Seq<char>,
) -> bool {
    let live = regions[snapshot.id];
    let region = "linear-memory region "@ + decimal(snapshot.id as nat);
    let size = snapshot.bytes@.len();
    if !regions.contains_key(snapshot.id) {
        message == not_live_text(snapshot.id)
    } else {
        match mode {
            RestoreMode::Exact => {
                if size != live.byte_size {
                    message == region + " size mismatch: snapshot="@ + decimal(size) + " live="@
                        + decimal(live.byte_size as nat)
                } else {
                    snapshot.byte_capacity != live.byte_capacity && message == other_capacity_text(
                        live,
                        snapshot,
                    )
                }
            },
            RestoreMode::Growing => {
                if snapshot.byte_capacity != live.byte_capacity {
                    message == other_capacity_text(live, snapshot)
                } else if size > live.byte_capacity {
                    message == region + " snapshot size "@ + decimal(size)
                        + " exceeds live capacity "@ + decimal(live.byte_capacity as nat)
                } else if size < live.byte_size {
                    message == region + " cannot shrink live memory: snapshot="@ + decimal(size)
                        + " live="@ + decimal(live.byte_size as nat)
                } else {
                    size > live.byte_size && message
                        == "metadata-only live-region grow is unsupported: it changes tracker state without updating Wasmtime VM memory length; create the restore target with TrackingMemoryCreator::new_with_initial_size_floor instead"@
                }
            },
        }
    }
}

/// The first `n` snapshots are taken, and if there are more the next is not.
pub open spec fn stops_at(
    mode: RestoreMode,
    regions: Map<u64, RegionRecord>,
    snapshots: Seq<HostMemoryRegionSnapshot>,
    n: int,
) -> bool {
    &&& 0 <= n <= snapshots.len()
    &&& forall|i: int| 0 <= i < n ==> takes(mode, regions, #[trigger] snapshots[i])
    &&& n < snapshots.len() ==> !takes(mode, regions, snapshots[n])
}

/// One of `writes` is of snapshot `i`.
pub open spec fn is_written(writes: Seq<HostMemoryWrite>, i: int) -> bool {
    exists|w: int| 0 <= w < writes.len() && (#[trigger] writes[w]).snapshot == i
}

/// `writes` puts each of the first `n` snapshots that has bytes at the base of its region, in
/// order, and nothing else.
pub open spec fn writes_first(
    writes: Seq<HostMemoryWrite>,
    regions: Map<u64, RegionRecord>,
    snapshots: Seq<HostMemoryRegionSnapshot>,
    n: int,
) -> bool {
    &&& forall|w: int|
        0 <= w < writes.len() ==> {
            let i = (#[trigger] writes[w]).snapshot as int;
            &&& i < n
            &&& snapshots[i].bytes@.len() > 0
            &&& writes[w].base_addr == regions[snapshots[i].id].base_addr
        }
    &&& forall|v: int, w: int|
        0 <= v < w < writes.len() ==> (#[trigger] writes[v]).snapshot < (
        #[trigger] writes[w]).snapshot
    &&& forall|i: int|
        0 <= i < n && (#[trigger] snapshots[i]).bytes@.len() > 0 ==> is_written(writes, i)
}

/// How many bytes each snapshot has.
pub open spec fn sizes(snapshots: Seq<HostMemoryRegionSnapshot>) -> Seq<int> {
    Seq::new(snapshots.len(), |i: int| snapshots[i].bytes@.len() as int)
}

/// What a restore that stops after the first `n` snapshots comes to.
pub open spec fn comes_to(
    mode: RestoreMode,
    regions: Map<u64, RegionRecord>,
    snapshots: Seq<HostMemoryRegionSnapshot>,
    writes: Seq<HostMemoryWrite>,
    outcome: Result<HostMemoryRestoreStats, String>,
    n: int,
) -> bool {
    &&& stops_at(mode, regions, snapshots, n)
    &&& writes_first(writes, regions, snapshots, n)
    &&& match outcome {
        Ok(stats) => {
            &&& n == snapshots.len()
            &&& stats.restored_regions == snapshots.len()
            &&& stats.restored_bytes == sum(sizes(snapshots))
        },
        Err(e) => n < snapshots.len() && says_why_not(mode, regions, snapshots[n], e@),
    }
}

/// The numbers of bytes add up.
proof fn lemma_sizes(snapshots: Seq<HostMemoryRegionSnapshot>, n: nat)
    requires
        n <= snapshots.len(),
    ensures
        total_bytes(snapshots, n) == sum(sizes(snapshots.take(n as int))),
    decreases n,
{
    let all = sizes(snapshots.take(n as int));
    if n > 0 {
        lemma_sizes(snapshots, (n - 1) as nat);
        assert(all.drop_last() =~= sizes(snapshots.take(n - 1)));
        assert(sum(all) == sum(all.drop_last()) + all.last());
        assert(snapshots.take(n as int)[n - 1] == snapshots[n - 1]);
    }
}

/// The writes of the first `n` snapshots.
proof fn lemma_writes_first(
    regions: Map<u64, RegionRecord>,
    snapshots: Seq<HostMemoryRegionSnapshot>,
    n: nat,
)
    requires
        n <= snapshots.len() <= usize::MAX,
    ensures
        writes_first(restore_writes(regions, snapshots, n), regions, snapshots, n as int),
    decreases n,
{
    if n > 0 {
        let m = (n - 1) as nat;
        lemma_writes_first(regions, snapshots, m);
        let earlier = restore_writes(regions, snapshots, m);
        let writes = restore_writes(regions, snapshots, n);
        if snapshots[m as int].bytes@.len() > 0 {
            assert forall|w: int| 0 <= w < writes.len() implies {
                let i = (#[trigger] writes[w]).snapshot as int;
                &&& i < n
                &&& snapshots[i].bytes@.len() > 0
                &&& writes[w].base_addr == regions[snapshots[i].id].base_addr
            } by {
                if w < earlier.len() {
                    assert(writes[w] == earlier[w]);
                }
            }
            assert forall|v: int, w: int| 0 <= v < w < writes.len() implies (
            #[trigger] writes[v]).snapshot < (#[trigger] writes[w]).snapshot by {
                assert(writes[v] == earlier[v]);
                if w < earlier.len() {
                    assert(writes[w] == earlier[w]);
                }
            }
            assert forall|i: int|
                0 <= i < n && (#[trigger] snapshots[i]).bytes@.len() > 0 implies is_written(
                writes,
                i,
            ) by {
                if i < m {
                    assert(is_written(earlier, i));
                    let w = choose|w: int|
                        0 <= w < earlier.len() && (#[trigger] earlier[w]).snapshot == i;
                    assert(writes[w] == earlier[w]);
                } else {
                    assert(writes[earlier.len() as int].snapshot == i);
                }
            }
        } else {
            assert forall|i: int|
                0 <= i < n && (#[trigger] snapshots[i]).bytes@.len() > 0 implies is_written(
                writes,
                i,
            ) by {
                assert(i < m);
                assert(is_written(earlier, i));
            }
        }
    }
}

/// A snapshot is refused exactly if it is not taken, and the error says why.
proof fn lemma_refusal(
    mode: RestoreMode,
    regions: Map<u64, RegionRecord>,
    snapshot: HostMemoryRegionSnapshot,
)
    ensures
        refusal(mode, regions, snapshot) is None <==> takes(mode, regions, snapshot),
        refusal(mode, regions, snapshot) matches Some(error) ==> says_why_not(
            mode,
            regions,
            snapshot,
            error.text(),
        ),
{
}

/// What restoring snapshots comes to.
proof fn lemma_restores(
    mode: RestoreMode,
    regions: Map<u64, RegionRecord>,
    snapshots: Seq<HostMemoryRegionSnapshot>,
    restore: HostMemoryRestore,
) -> (n: int)
    requires
        snapshots.len() <= usize::MAX,
        restores(mode, regions, snapshots, restore),
    ensures
        comes_to(mode, regions, snapshots, restore.writes@, restore.outcome, n),
{
    let n = first_refused(mode, regions, snapshots, 0);
    crate::laws::lemma_accepted_before_refused(mode, regions, snapshots, 0);
    assert forall|i: int| 0 <= i < n implies takes(mode, regions, #[trigger] snapshots[i]) by {
        lemma_refusal(mode, regions, snapshots[i]);
    }
    if n < snapshots.len() {
        lemma_refusal(mode, regions, snapshots[n as int]);
    }
    lemma_writes_first(regions, snapshots, n);
    lemma_sizes(snapshots, snapshots.len());
    assert(snapshots.take(snapshots.len() as int) =~= snapshots);
    n as int
}

/// Restoring takes the snapshots in order, up to the first that has not the shape of its live
/// region, and says why it stopped there. The bytes of each that was taken go to the base of its
/// region. If all were taken, all are counted, with all of their bytes.
pub proof fn restore_takes_snapshots_of_the_live_shape(
    tracker: HostMemoryTracker,
    snapshots: &[HostMemoryRegionSnapshot],
    r: HostMemoryRestore,
) -> (n: int)
    requires
        call_ensures(HostMemoryTracker::restore_live_regions, (&tracker, snapshots), r),
    ensures
        comes_to(
            RestoreMode::Exact,
            tracker@.regions,
            snapshots@,
            r.writes@,
            r.outcome,
            n,
        ),
{
    assert(snapshots.len() == snapshots@.len());
    lemma_restores(RestoreMode::Exact, tracker@.regions, snapshots@, r)
}

/// The growing restore does the same, for its own reasons: it never grows a memory.
pub proof fn growing_restore_takes_no_larger_snapshot(
    tracker: HostMemoryTracker,
    snapshots: &[HostMemoryRegionSnapshot],
    r: HostMemoryRestore,
) -> (n: int)
    requires
        call_ensures(HostMemoryTracker::restore_live_regions_growing, (&tracker, snapshots), r),
    ensures
        comes_to(
            RestoreMode::Growing,
            tracker@.regions,
            snapshots@,
            r.writes@,
            r.outcome,
            n,
        ),
{
    assert(snapshots.len() == snapshots@.len());
    lemma_restores(RestoreMode::Growing, tracker@.regions, snapshots@, r)
}

/// The messages of a restore say what is wrong, with the numbers that the error carries.
pub proof fn restore_errors_say_what_is_wrong(error: RestoreError, message: String)
    requires
        call_ensures(RestoreError::message, (&error,), message),
    ensures
        match error {
            RestoreError::NotLive { id } => message@ == not_live_text(id),
            RestoreError::SizeMismatch { id, snapshot, live } => message@
                == "linear-memory region "@ + decimal(id as nat) + " size mismatch: snapshot="@
                + decimal(snapshot as nat) + " live="@ + decimal(live as nat),
            RestoreError::CapacityMismatch { id, snapshot, live } => message@
                == "linear-memory region "@ + decimal(id as nat) + " capacity mismatch: snapshot="@
                + decimal(snapshot as nat) + " live="@ + decimal(live as nat),
            RestoreError::ExceedsCapacity { id, snapshot, capacity } => message@
                == "linear-memory region "@ + decimal(id as nat) + " snapshot size "@ + decimal(
                snapshot as nat,
            ) + " exceeds live capacity "@ + decimal(capacity as nat),
            RestoreError::CannotShrink { id, snapshot, live } => message@
                == "linear-memory region "@ + decimal(id as nat)
                + " cannot shrink live memory: snapshot="@ + decimal(snapshot as nat) + " live="@
                + decimal(live as nat),
            RestoreError::GrowUnsupported => message@
                == "metadata-only live-region grow is unsupported: it changes tracker state without updating Wasmtime VM memory length; create the restore target with TrackingMemoryCreator::new_with_initial_size_floor instead"@,
        },
{
}

/// Item `k` is the first with `key`.
pub open spec fn is_first(dict: Seq<DictItem>, key: Seq<char>, k: int) -> bool {
    &&& 0 <= k < dict.len()
    &&& dict[k].key@ == key
    &&& forall|j: int| 0 <= j < k ==> (#[trigger] dict[j]).key@ != key
}

/// No item has `key`.
pub open spec fn lacks(dict: Seq<DictItem>, key: Seq<char>) -> bool {
    forall|k: int| 0 <= k < dict.len() ==> (#[trigger] dict[k]).key@ != key
}

/// The dict holds `n` under `key`.
pub open spec fn holds_number(dict: Seq<DictItem>, key: Seq<char>, n: int) -> bool {
    exists|k: int| #[trigger]
        is_first(dict, key, k) && (dict[k].value matches DictValue::Unsigned(m) && m == n)
}

/// The dict holds these bytes under `key`.
pub open spec fn holds_bytes(dict: Seq<DictItem>, key: Seq<char>, bytes: Seq<u8>) -> bool {
    exists|k: int| #[trigger]
        is_first(dict, key, k) && (dict[k].value matches DictValue::Bytes(held) && held@ == bytes)
}

/// The dict holds something under `key` that is no number.
pub open spec fn holds_no_number(dict: Seq<DictItem>, key: Seq<char>) -> bool {
    exists|k: int| #[trigger] is_first(dict, key, k) && dict[k].value !is Unsigned
}

/// The dict holds something under `key` that is no bytes.
pub open spec fn holds_no_bytes(dict: Seq<DictItem>, key: Seq<char>) -> bool {
    exists|k: int| #[trigger] is_first(dict, key, k) && dict[k].value !is Bytes
}

/// The dict holds a number under `key` that is at most `most`.
pub open spec fn holds_number_up_to(dict: Seq<DictItem>, key: Seq<char>, most: int) -> bool {
    exists|n: int| n <= most && #[trigger] holds_number(dict, key, n)
}

/// The dict holds a number under `key` that is above `most`.
pub open spec fn holds_number_above(dict: Seq<DictItem>, key: Seq<char>, most: int) -> bool {
    exists|n: int| n > most && #[trigger] holds_number(dict, key, n)
}

/// A dict is read as the snapshot whose id, capacity and bytes it holds.
pub open spec fn is_read_as(entry: RegionEntry, snapshot: HostMemoryRegionSnapshot) -> bool {
    entry matches RegionEntry::Dict(dict) && {
        &&& holds_number(dict@, "id"@, snapshot.id as int)
        &&& holds_number(dict@, "byte_capacity"@, snapshot.byte_capacity as int)
        &&& holds_bytes(dict@, "bytes"@, snapshot.bytes@)
    }
}

/// The entry at `place` cannot be read, for the reason that `error` gives. The id is looked for
/// first, then the capacity, then the bytes.
pub open spec fn is_unreadable(
    entry: RegionEntry,
    place: int,
    error: RegionArgumentError,
) -> bool {
    match entry {
        RegionEntry::NotDict => error is NotDict,
        RegionEntry::Dict(dict) => {
            let has_id = holds_number_up_to(dict@, "id"@, u64::MAX as int);
            let has_capacity = holds_number_up_to(dict@, "byte_capacity"@, usize::MAX as int);
            match error {
                RegionArgumentError::NotList => false,
                RegionArgumentError::NotDict => false,
                RegionArgumentError::MissingId => lacks(dict@, "id"@),
                RegionArgumentError::BadId { entry } => entry == place && holds_no_number(
                    dict@,
                    "id"@,
                ),
                RegionArgumentError::MissingCapacity => has_id && lacks(dict@, "byte_capacity"@),
                RegionArgumentError::BadCapacity { entry } => {
                    &&& entry == place
                    &&& has_id
                    &&& holds_no_number(dict@, "byte_capacity"@) || holds_number_above(
                        dict@,
                        "byte_capacity"@,
                        usize::MAX as int,
                    )
                },
                RegionArgumentError::MissingBytes => has_id && has_capacity && lacks(
                    dict@,
                    "bytes"@,
                ),
                RegionArgumentError::NotBytes => has_id && has_capacity && holds_no_bytes(
                    dict@,
                    "bytes"@,
                ),
            }
        },
    }
}

/// The entry can be read.
pub open spec fn is_readable(entry: RegionEntry) -> bool {
    exists|snapshot: HostMemoryRegionSnapshot| #[trigger] is_read_as(entry, snapshot)
}

/// What looking a key up finds: the value of the first item with the key.
proof fn lemma_lookup(dict: Seq<DictItem>, key: Seq<char>)
    ensures
        match lookup(entries(dict), key) {
            Some(value) => exists|k: int| #[trigger]
                is_first(dict, key, k) && dict[k].value@ == value,
            None => lacks(dict, key),
        },
    decreases dict.len(),
{
    let list = entries(dict);
    if dict.len() > 0 {
        assert(list[0] == dict[0]@);
        if dict[0].key@ == key {
            assert(is_first(dict, key, 0));
        } else {
            let rest = dict.skip(1);
            assert(entries(rest) =~= list.skip(1));
            lemma_lookup(rest, key);
            match lookup(list, key) {
                Some(value) => {
                    let k = choose|k: int| #[trigger]
                        is_first(rest, key, k) && rest[k].value@ == value;
                    assert forall|j: int| 0 <= j < k + 1 implies (#[trigger] dict[j]).key@
                        != key by {
                        if j > 0 {
                            assert(dict[j] == rest[j - 1]);
                        }
                    }
                    assert(is_first(dict, key, k + 1));
                },
                None => {
                    assert forall|j: int| 0 <= j < dict.len() implies (#[trigger] dict[j]).key@
                        != key by {
                        if j > 0 {
                            assert(dict[j] == rest[j - 1]);
                        }
                    }
                },
            }
        }
    }
}

/// What a key holds, by what looking it up finds.
proof fn lemma_holds(dict: Seq<DictItem>, key: Seq<char>)
    ensures
        match lookup(entries(dict), key) {
            Some(ValueView::Unsigned(n)) => holds_number(dict, key, n as int) && holds_no_bytes(
                dict,
                key,
            ),
            Some(ValueView::Bytes(bytes)) => holds_bytes(dict, key, bytes) && holds_no_number(
                dict,
                key,
            ),
            Some(ValueView::Other) => holds_no_number(dict, key) && holds_no_bytes(dict, key),
            None => lacks(dict, key),
        },
{
    lemma_lookup(dict, key);
}

/// What reading one entry comes to.
proof fn lemma_entry(entry: RegionEntry, place: int, snapshot: HostMemoryRegionSnapshot)
    requires
        0 <= place <= usize::MAX,
    ensures
        match entry_snapshot(entry, place as usize) {
            Ok(view) => view == snapshot@ ==> is_read_as(entry, snapshot),
            Err(error) => is_unreadable(entry, place, error),
        },
{
    if let RegionEntry::Dict(dict) = entry {
        lemma_holds(dict@, "id"@);
        lemma_holds(dict@, "byte_capacity"@);
        lemma_holds(dict@, "bytes"@);
    }
}

/// `r` is what reading a list comes to: each entry is read as its snapshot; or the first that
/// cannot be read is named, with the reason.
pub open spec fn reads_list(
    list: Seq<RegionEntry>,
    r: Result<Seq<HostMemoryRegionSnapshot>, RegionArgumentError>,
) -> bool {
    match r {
        Ok(snapshots) => {
            &&& snapshots.len() == list.len()
            &&& forall|i: int| 0 <= i < list.len() ==> is_read_as(#[trigger] list[i], snapshots[i])
        },
        Err(error) => exists|k: int|
            {
                &&& 0 <= k < list.len()
                &&& is_unreadable(#[trigger] list[k], k, error)
                &&& forall|i: int| 0 <= i < k ==> is_readable(#[trigger] list[i])
            },
    }
}

/// The snapshots that a list stands for are those that it is read as.
proof fn lemma_list_read(list: Seq<RegionEntry>, snapshots: Seq<HostMemoryRegionSnapshot>)
    requires
        list.len() <= usize::MAX,
        stands_for(list, snapshots),
    ensures
        reads_list(list, Ok(snapshots)),
{
    assert forall|i: int| 0 <= i < list.len() implies is_read_as(
        #[trigger] list[i],
        snapshots[i],
    ) by {
        lemma_entry(list[i], i, snapshots[i]);
    }
}

/// The first error in a list is that of the first entry that cannot be read.
proof fn lemma_list_unread(list: Seq<RegionEntry>, error: RegionArgumentError)
    requires
        list.len() <= usize::MAX,
        first_error(list, error),
    ensures
        reads_list(list, Err(error)),
{
    let k = choose|k: int|
        0 <= k < list.len() && entry_snapshot(#[trigger] list[k], k as usize) == Err::<
            crate::snapshot::SnapshotView,
            RegionArgumentError,
        >(error) && forall|i: int|
            0 <= i < k ==> entry_snapshot(#[trigger] list[i], i as usize) is Ok;
    let any = arbitrary::<HostMemoryRegionSnapshot>();
    lemma_entry(list[k], k, any);
    assert forall|i: int| 0 <= i < k implies is_readable(#[trigger] list[i]) by {
        lemma_readable(list[i], i);
    }
}

/// An entry that stands for a snapshot can be read.
proof fn lemma_readable(entry: RegionEntry, place: int)
    requires
        0 <= place <= usize::MAX,
        entry_snapshot(entry, place as usize) is Ok,
    ensures
        is_readable(entry),
{
    if let RegionEntry::Dict(dict) = entry {
        lemma_holds(dict@, "id"@);
        lemma_holds(dict@, "byte_capacity"@);
        lemma_holds(dict@, "bytes"@);
        let k = choose|k: int| #[trigger]
            is_first(dict@, "bytes"@, k) && dict@[k].value is Bytes;
        lemma_lookup(dict@, "bytes"@);
        let view = entry_snapshot(entry, place as usize)->Ok_0;
        let snapshot = HostMemoryRegionSnapshot {
            id: view.id,
            byte_capacity: view.byte_capacity,
            bytes: dict@[k].value->Bytes_0,
        };
        assert(is_read_as(entry, snapshot));
    }
}

/// Regions are read one by one, and only from a list.
pub proof fn regions_are_read_as_given(
    argument: &RegionsArgument,
    r: Result<Vec<HostMemoryRegionSnapshot>, RegionArgumentError>,
)
    requires
        call_ensures(read_regions, (argument,), r),
    ensures
        match *argument {
            RegionsArgument::NotList => r is Err && r->Err_0 is NotList,
            RegionsArgument::List(list) => match r {
                Ok(snapshots) => reads_list(list@, Ok(snapshots@)),
                Err(error) => reads_list(list@, Err(error)),
            },
        },
{
    if let RegionsArgument::List(list) = argument {
        assert(list@.len() == list.len());
        match r {
            Ok(snapshots) => lemma_list_read(list@, snapshots@),
            Err(error) => lemma_list_unread(list@, error),
        }
    }
}

/// Each error is a Python exception of its kind, with its message.
pub proof fn argument_errors_are_raised_as_they_should_be(
    error: RegionArgumentError,
    kind: ErrorKind,
    message: String,
)
    requires
        call_ensures(RegionArgumentError::kind, (&error,), kind),
        call_ensures(RegionArgumentError::message, (&error,), message),
    ensures
        error is NotList ==> kind is Type && message@
            == "linear-memory regions must be a list of dicts"@,
        error is NotDict ==> kind is Type && message@
            == "linear-memory region entries must be dicts"@,
        error is NotBytes ==> kind is Type && message@
            == "linear-memory region 'bytes' must be bytes"@,
        error is MissingId ==> kind is Key && message@ == "missing 'id'"@,
        error is MissingCapacity ==> kind is Key && message@ == "missing 'byte_capacity'"@,
        error is MissingBytes ==> kind is Key && message@ == "missing 'bytes'"@,
        error is BadId || error is BadCapacity ==> kind is Conversion,
{
}

/// What a session's restore comes to where it stops after the first `n` snapshots.
pub open spec fn session_comes_to(
    regions: Map<u64, RegionRecord>,
    list: Seq<RegionEntry>,
    r: SessionRestore,
    n: int,
) -> bool {
    let snapshots = r.snapshots@;
    &&& reads_list(list, Ok(snapshots))
    &&& stops_at(RestoreMode::Exact, regions, snapshots, n)
    &&& writes_first(r.writes@, regions, snapshots, n)
    &&& match r.outcome {
        Ok(dict) => n == snapshots.len() && says_restored(
            dict@,
            list.len() as int,
            sum(sizes(snapshots)),
        ),
        Err(SessionError::Initialization { message }) => n < snapshots.len() && says_why_not(
            RestoreMode::Exact,
            regions,
            snapshots[n],
            message@,
        ),
        Err(SessionError::Argument { .. }) => false,
    }
}

/// A session restores the regions that it is given, as its tracker would, and reports how many
/// there were and how many bytes. Without a tracker, and where the regions cannot be read, it
/// writes nothing and says why.
pub proof fn session_restores_what_it_is_given(
    session: Session,
    tracker: Option<&HostMemoryTracker>,
    argument: &RegionsArgument,
    r: SessionRestore,
) -> (n: int)
    requires
        call_ensures(
            Session::restore_linear_memory_regions,
            (&session, tracker, argument),
            r,
        ),
    ensures
        !(session.unix && tracker is Some) ==> {
            &&& r.writes@.len() == 0
            &&& r.outcome matches Err(SessionError::Initialization { message }) && says_no_tracker(
                session,
                tracker is Some,
                message@,
            )
        },
        session.unix && tracker is Some ==> match *argument {
            RegionsArgument::NotList => {
                &&& r.writes@.len() == 0
                &&& r.outcome matches Err(SessionError::Argument { error }) && error is NotList
            },
            RegionsArgument::List(list) => match r.outcome {
                Err(SessionError::Argument { error }) => r.writes@.len() == 0 && reads_list(
                    list@,
                    Err(error),
                ),
                _ => session_comes_to(tracker->0@.regions, list@, r, n),
            },
        },
{
    let mut n: int = 0;
    if session.unix && tracker is Some {
        if let RegionsArgument::List(list) = argument {
            assert(list@.len() == list.len());
            if let Err(SessionError::Argument { error }) = r.outcome {
                lemma_list_unread(list@, error);
            } else {
                let regions = tracker->0@.regions;
                lemma_list_read(list@, r.snapshots@);
                let passed = choose|passed: HostMemoryRestore| #[trigger]
                    carries(r, passed) && restores(
                        RestoreMode::Exact,
                        regions,
                        r.snapshots@,
                        passed,
                    );
                n = lemma_restores(RestoreMode::Exact, regions, r.snapshots@, passed);
                if let Ok(stats) = passed.outcome {
                    crate::laws::report::lemma_says_restored(r.outcome->Ok_0@, stats);
                }
            }
        }
    }
    n
}

} // verus!
