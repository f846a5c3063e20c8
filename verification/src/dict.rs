//! Keyed values that are exchanged with Python: what a session reports of its linear memories,
//! and the regions that it is given to restore.

use vstd::prelude::*;

use crate::snapshot::{HostMemoryRegionSnapshot, HostMemoryRestoreStats, SnapshotView};
use crate::tracker::{HostMemoryRegion, HostMemoryStats};

verus! {

/// A Python value, as far as regions are concerned.
#[derive(Debug)]
pub enum DictValue {
    /// An integer that fits a `u64`.
    Unsigned(u64),
    /// A bytes object.
    Bytes(Vec<u8>),
    /// Anything else.
    Other,
}

/// One key of a dict, with its value.
#[derive(Debug)]
pub struct DictItem {
    /// The key.
    pub key: String,
    /// The value.
    pub value: DictValue,
}

/// A Python value as a mathematical value.
pub enum ValueView {
    Unsigned(u64),
    Bytes(Seq<u8>),
    Other,
}

impl View for DictValue {
    type V = ValueView;

    open spec fn view(&self) -> ValueView {
        match *self {
            DictValue::Unsigned(n) => ValueView::Unsigned(n),
            DictValue::Bytes(bytes) => ValueView::Bytes(bytes@),
            DictValue::Other => ValueView::Other,
        }
    }
}

impl View for DictItem {
    type V = (Seq<char>, ValueView);

    open spec fn view(&self) -> (Seq<char>, ValueView) {
        (self.key@, self.value@)
    }
}

/// The keys and values of a dict, in order.
pub open spec fn entries(items: Seq<DictItem>) -> Seq<(Seq<char>, ValueView)> {
    items.map_values(|item: DictItem| item@)
}

/// A key with an integer.
pub open spec fn number_entry(key: &str, n: u64) -> (Seq<char>, ValueView) {
    (key@, ValueView::Unsigned(n))
}

/// A key with an integer.
fn number(key: &str, n: u64) -> (r: DictItem)
    ensures
        r@ == number_entry(key, n),
{
    DictItem { key: key.to_owned(), value: DictValue::Unsigned(n) }
}

/// What is reported of the aggregate counters.
pub open spec fn stats_entries(stats: HostMemoryStats) -> Seq<(Seq<char>, ValueView)> {
    seq![
        number_entry("allocations", stats.allocations),
        number_entry("deallocations", stats.deallocations),
        number_entry("mapped_bytes", stats.mapped_bytes as u64),
        number_entry("peak_mapped_bytes", stats.peak_mapped_bytes as u64),
        number_entry("accessible_bytes", stats.accessible_bytes as u64),
        number_entry("peak_accessible_bytes", stats.peak_accessible_bytes as u64),
        number_entry("grow_count", stats.grow_count),
    ]
}

/// Reports the aggregate counters.
pub fn stats_items(stats: &HostMemoryStats) -> (r: Vec<DictItem>)
    ensures
        entries(r@) == stats_entries(*stats),
{
    let mut items: Vec<DictItem> = Vec::new();
    items.push(number("allocations", stats.allocations));
    items.push(number("deallocations", stats.deallocations));
    items.push(number("mapped_bytes", stats.mapped_bytes as u64));
    items.push(number("peak_mapped_bytes", stats.peak_mapped_bytes as u64));
    items.push(number("accessible_bytes", stats.accessible_bytes as u64));
    items.push(number("peak_accessible_bytes", stats.peak_accessible_bytes as u64));
    items.push(number("grow_count", stats.grow_count));
    assert(entries(items@) =~= stats_entries(*stats));
    items
}

/// What is reported of a live region.
pub open spec fn region_entries(region: HostMemoryRegion) -> Seq<(Seq<char>, ValueView)> {
    seq![
        number_entry("id", region.id),
        number_entry("base_addr", region.base_addr as u64),
        number_entry("byte_size", region.byte_size as u64),
        number_entry("byte_capacity", region.byte_capacity as u64),
        number_entry("accessible_bytes", region.accessible_bytes as u64),
        number_entry("mapped_bytes", region.mapped_bytes as u64),
        number_entry("guard_bytes", region.guard_bytes as u64),
    ]
}

/// Reports a live region.
pub fn region_items(region: &HostMemoryRegion) -> (r: Vec<DictItem>)
    ensures
        entries(r@) == region_entries(*region),
{
    let mut items: Vec<DictItem> = Vec::new();
    items.push(number("id", region.id));
    items.push(number("base_addr", region.base_addr as u64));
    items.push(number("byte_size", region.byte_size as u64));
    items.push(number("byte_capacity", region.byte_capacity as u64));
    items.push(number("accessible_bytes", region.accessible_bytes as u64));
    items.push(number("mapped_bytes", region.mapped_bytes as u64));
    items.push(number("guard_bytes", region.guard_bytes as u64));
    assert(entries(items@) =~= region_entries(*region));
    items
}

/// What is reported of a snapshot.
pub open spec fn snapshot_entries(snapshot: HostMemoryRegionSnapshot) -> Seq<
    (Seq<char>, ValueView),
> {
    seq![
        number_entry("id", snapshot.id),
        number_entry("byte_capacity", snapshot.byte_capacity as u64),
        number_entry("byte_size", snapshot.bytes@.len() as u64),
        ("bytes"@, ValueView::Bytes(snapshot.bytes@)),
    ]
}

/// Reports a snapshot, with its bytes.
pub fn snapshot_items(snapshot: HostMemoryRegionSnapshot) -> (r: Vec<DictItem>)
    ensures
        entries(r@) == snapshot_entries(snapshot),
{
    let mut items: Vec<DictItem> = Vec::new();
    let byte_size: usize = snapshot.bytes.len();
    items.push(number("id", snapshot.id));
    items.push(number("byte_capacity", snapshot.byte_capacity as u64));
    items.push(number("byte_size", byte_size as u64));
    items.push(DictItem { key: "bytes".to_owned(), value: DictValue::Bytes(snapshot.bytes) });
    assert(entries(items@) =~= snapshot_entries(snapshot));
    items
}

/// What is reported of a restore.
pub open spec fn restore_entries(stats: HostMemoryRestoreStats) -> Seq<(Seq<char>, ValueView)> {
    seq![
        number_entry("restored_regions", stats.restored_regions as u64),
        number_entry("restored_bytes", stats.restored_bytes as u64),
    ]
}

/// Reports a restore.
pub fn restore_items(stats: &HostMemoryRestoreStats) -> (r: Vec<DictItem>)
    ensures
        entries(r@) == restore_entries(*stats),
{
    let mut items: Vec<DictItem> = Vec::new();
    items.push(number("restored_regions", stats.restored_regions as u64));
    items.push(number("restored_bytes", stats.restored_bytes as u64));
    assert(entries(items@) =~= restore_entries(*stats));
    items
}

/// The regions that a session is given to restore.
#[derive(Debug)]
pub enum RegionsArgument {
    /// Something other than a list.
    NotList,
    /// A list.
    List(Vec<RegionEntry>),
}

/// One of the regions that a session is given to restore.
#[derive(Debug)]
pub enum RegionEntry {
    /// Something other than a dict.
    NotDict,
    /// A dict.
    Dict(Vec<DictItem>),
}

/// Why regions cannot be restored as given. An entry is named by its place in the list.
#[derive(Debug, Clone, Copy, PartialEq, Eq, Structural)]
pub enum RegionArgumentError {
    /// The regions are not a list.
    NotList,
    /// An entry is not a dict.
    NotDict,
    /// An entry has no id.
    MissingId,
    /// The id of an entry is no integer in range.
    BadId { entry: usize },
    /// An entry has no capacity.
    MissingCapacity,
    /// The capacity of an entry is no integer in range.
    BadCapacity { entry: usize },
    /// An entry has no bytes.
    MissingBytes,
    /// The bytes of an entry are not bytes.
    NotBytes,
}

/// The Python exception for an error.
#[derive(Debug, Clone, Copy, PartialEq, Eq, Structural)]
pub enum ErrorKind {
    /// `TypeError` with the error's message.
    Type,
    /// `KeyError` with the error's message.
    Key,
    /// What converting the value raises.
    Conversion,
}

impl RegionArgumentError {
    /// The exception for the error.
    pub open spec fn spec_kind(self) -> ErrorKind {
        match self {
            RegionArgumentError::NotList
            | RegionArgumentError::NotDict
            | RegionArgumentError::NotBytes => ErrorKind::Type,
            RegionArgumentError::MissingId
            | RegionArgumentError::MissingCapacity
            | RegionArgumentError::MissingBytes => ErrorKind::Key,
            RegionArgumentError::BadId { .. }
            | RegionArgumentError::BadCapacity { .. } => ErrorKind::Conversion,
        }
    }

    /// The message for the error; empty where converting the value brings its own.
    pub open spec fn text(self) -> Seq<char> {
        match self {
            RegionArgumentError::NotList => "linear-memory regions must be a list of dicts"@,
            RegionArgumentError::NotDict => "linear-memory region entries must be dicts"@,
            RegionArgumentError::MissingId => "missing 'id'"@,
            RegionArgumentError::BadId { .. } => Seq::empty(),
            RegionArgumentError::MissingCapacity => "missing 'byte_capacity'"@,
            RegionArgumentError::BadCapacity { .. } => Seq::empty(),
            RegionArgumentError::MissingBytes => "missing 'bytes'"@,
            RegionArgumentError::NotBytes => "linear-memory region 'bytes' must be bytes"@,
        }
    }

    /// The exception for the error.
    pub fn kind(&self) -> (r: ErrorKind)
        ensures
            r == self.spec_kind(),
    {
        match *self {
            RegionArgumentError::NotList
            | RegionArgumentError::NotDict
            | RegionArgumentError::NotBytes => ErrorKind::Type,
            RegionArgumentError::MissingId
            | RegionArgumentError::MissingCapacity
            | RegionArgumentError::MissingBytes => ErrorKind::Key,
            RegionArgumentError::BadId { .. }
            | RegionArgumentError::BadCapacity { .. } => ErrorKind::Conversion,
        }
    }

    /// The message for the error.
    pub fn message(&self) -> (r: String)
        ensures
            r@ == self.text(),
    {
        match *self {
            RegionArgumentError::NotList => "linear-memory regions must be a list of dicts".to_owned(),
            RegionArgumentError::NotDict => "linear-memory region entries must be dicts".to_owned(),
            RegionArgumentError::MissingId => "missing 'id'".to_owned(),
            RegionArgumentError::BadId { .. } => String::new(),
            RegionArgumentError::MissingCapacity => "missing 'byte_capacity'".to_owned(),
            RegionArgumentError::BadCapacity { .. } => String::new(),
            RegionArgumentError::MissingBytes => "missing 'bytes'".to_owned(),
            RegionArgumentError::NotBytes => "linear-memory region 'bytes' must be bytes".to_owned(),
        }
    }
}

/// The value of `key`: that of the first item with the key.
pub open spec fn lookup(dict: Seq<(Seq<char>, ValueView)>, key: Seq<char>) -> Option<ValueView>
    decreases dict.len(),
{
    if dict.len() == 0 {
        None
    } else if dict[0].0 == key {
        Some(dict[0].1)
    } else {
        lookup(dict.skip(1), key)
    }
}

/// The place of the first item with `key`.
fn find(items: &Vec<DictItem>, key: &str) -> (r: Option<usize>)
    ensures
        match r {
            Some(i) => i < items.len() && lookup(entries(items@), key@) == Some(items[i as int].value@),
            None => lookup(entries(items@), key@) is None,
        },
{
    let wanted = key.to_owned();
    let ghost dict = entries(items@);
    let mut i: usize = 0;
    assert(dict.skip(0) =~= dict);
    while i < items.len()
        invariant
            i <= items.len(),
            wanted@ == key@,
            dict == entries(items@),
            lookup(dict, key@) == lookup(dict.skip(i as int), key@),
        decreases items.len() - i,
    {
        assert(dict.skip(i as int)[0] == items[i as int]@);
        if items[i].key == wanted {
            return Some(i);
        }
        assert(dict.skip(i as int).skip(1) =~= dict.skip(i + 1));
        i += 1;
    }
    None
}

/// The snapshot that an entry of the list stands for: its `id`, `byte_capacity` and `bytes`,
/// looked up in this order.
pub open spec fn entry_snapshot(entry: RegionEntry, place: usize) -> Result<
    SnapshotView,
    RegionArgumentError,
> {
    match entry {
        RegionEntry::NotDict => Err(RegionArgumentError::NotDict),
        RegionEntry::Dict(items) => {
            let dict = entries(items@);
            match lookup(dict, "id"@) {
                None => Err(RegionArgumentError::MissingId),
                Some(ValueView::Unsigned(id)) => match lookup(dict, "byte_capacity"@) {
                    None => Err(RegionArgumentError::MissingCapacity),
                    Some(ValueView::Unsigned(capacity)) => {
                        if capacity > usize::MAX {
                            Err(RegionArgumentError::BadCapacity { entry: place })
                        } else {
                            match lookup(dict, "bytes"@) {
                                None => Err(RegionArgumentError::MissingBytes),
                                Some(ValueView::Bytes(bytes)) => Ok(
                                    SnapshotView {
                                        id,
                                        byte_capacity: capacity as usize,
                                        bytes,
                                    },
                                ),
                                Some(_) => Err(RegionArgumentError::NotBytes),
                            }
                        }
                    },
                    Some(_) => Err(RegionArgumentError::BadCapacity { entry: place }),
                },
                Some(_) => Err(RegionArgumentError::BadId { entry: place }),
            }
        },
    }
}

/// Reads one entry of the list.
fn read_entry(entry: &RegionEntry, place: usize) -> (r: Result<
    HostMemoryRegionSnapshot,
    RegionArgumentError,
>)
    ensures
        match r {
            Ok(snapshot) => entry_snapshot(*entry, place) == Ok::<
                SnapshotView,
                RegionArgumentError,
            >(snapshot@),
            Err(e) => entry_snapshot(*entry, place) == Err::<SnapshotView, RegionArgumentError>(e),
        },
{
    let items: &Vec<DictItem> = match entry {
        RegionEntry::NotDict => return Err(RegionArgumentError::NotDict),
        RegionEntry::Dict(items) => items,
    };
    let id: u64 = match find(items, "id") {
        None => return Err(RegionArgumentError::MissingId),
        Some(i) => match &items[i].value {
            DictValue::Unsigned(id) => *id,
            _ => return Err(RegionArgumentError::BadId { entry: place }),
        },
    };
    let byte_capacity: usize = match find(items, "byte_capacity") {
        None => return Err(RegionArgumentError::MissingCapacity),
        Some(i) => match &items[i].value {
            DictValue::Unsigned(capacity) => {
                if *capacity > usize::MAX as u64 {
                    return Err(RegionArgumentError::BadCapacity { entry: place });
                }
                *capacity as usize
            },
            _ => return Err(RegionArgumentError::BadCapacity { entry: place }),
        },
    };
    match find(items, "bytes") {
        None => Err(RegionArgumentError::MissingBytes),
        Some(i) => match &items[i].value {
            DictValue::Bytes(bytes) => {
                let copied: Vec<u8> = bytes.clone();
                assert(copied@ =~= bytes@);
                Ok(HostMemoryRegionSnapshot { id, byte_capacity, bytes: copied })
            },
            _ => Err(RegionArgumentError::NotBytes),
        },
    }
}

/// `list` stands for `snapshots`, one for one.
pub open spec fn stands_for(
    list: Seq<RegionEntry>,
    snapshots: Seq<HostMemoryRegionSnapshot>,
) -> bool {
    &&& snapshots.len() == list.len()
    &&& forall|i: int|
        0 <= i < list.len() ==> entry_snapshot(#[trigger] list[i], i as usize) == Ok::<
            SnapshotView,
            RegionArgumentError,
        >(snapshots[i]@)
}

/// `error` is that of the first entry of `list` that stands for no snapshot.
pub open spec fn first_error(list: Seq<RegionEntry>, error: RegionArgumentError) -> bool {
    exists|k: int|
        0 <= k < list.len() && entry_snapshot(#[trigger] list[k], k as usize) == Err::<
            SnapshotView,
            RegionArgumentError,
        >(error) && forall|i: int|
            0 <= i < k ==> entry_snapshot(#[trigger] list[i], i as usize) is Ok
}

/// The regions that `argument` stands for.
pub fn read_regions(argument: &RegionsArgument) -> (r: Result<
    Vec<HostMemoryRegionSnapshot>,
    RegionArgumentError,
>)
    ensures
        match *argument {
            RegionsArgument::NotList => r == Err::<
                Vec<HostMemoryRegionSnapshot>,
                RegionArgumentError,
            >(RegionArgumentError::NotList),
            RegionsArgument::List(list) => match r {
                Ok(snapshots) => stands_for(list@, snapshots@),
                Err(e) => first_error(list@, e),
            },
        },
{
    let list: &Vec<RegionEntry> = match argument {
        RegionsArgument::NotList => return Err(RegionArgumentError::NotList),
        RegionsArgument::List(list) => list,
    };
    let mut snapshots: Vec<HostMemoryRegionSnapshot> = Vec::new();
    let mut k: usize = 0;
    while k < list.len()
        invariant
            k <= list.len(),
            *argument == RegionsArgument::List(*list),
            stands_for(list@.take(k as int), snapshots@),
        decreases list.len() - k,
    {
        let ghost earlier = snapshots@;
        match read_entry(&list[k], k) {
            Ok(snapshot) => {
                snapshots.push(snapshot);
                assert forall|i: int| 0 <= i < k + 1 implies entry_snapshot(
                    #[trigger] list@.take(k + 1)[i],
                    i as usize,
                ) == Ok::<SnapshotView, RegionArgumentError>(snapshots@[i]@) by {
                    if i < k {
                        assert(list@.take(k as int)[i] == list@[i]);
                        assert(snapshots@[i] == earlier[i]);
                    }
                }
            },
            Err(e) => {
                assert forall|i: int| 0 <= i < k implies entry_snapshot(
                    #[trigger] list@[i],
                    i as usize,
                ) is Ok by {
                    assert(list@.take(k as int)[i] == list@[i]);
                }
                return Err(e);
            },
        }
        k += 1;
    }
    assert(list@.take(k as int) =~= list@);
    Ok(snapshots)
}

/// A snapshot that was reported is read back as it was, whatever its place in the list.
pub proof fn reported_snapshot_is_read_back(
    snapshot: HostMemoryRegionSnapshot,
    items: Vec<DictItem>,
    place: usize,
)
    requires
        entries(items@) == snapshot_entries(snapshot),
    ensures
        entry_snapshot(RegionEntry::Dict(items), place) == Ok::<SnapshotView, RegionArgumentError>(
            snapshot@,
        ),
{
    let dict = entries(items@);
    reveal_strlit("id");
    reveal_strlit("byte_capacity");
    reveal_strlit("byte_size");
    reveal_strlit("bytes");
    reveal_with_fuel(lookup, 5);
    assert("id"@.len() == 2);
    assert("byte_capacity"@.len() == 13);
    assert("byte_size"@.len() == 9);
    assert("bytes"@.len() == 5);
    assert(lookup(dict, "id"@) == Some(ValueView::Unsigned(snapshot.id)));
    assert(lookup(dict, "byte_capacity"@) == Some(
        ValueView::Unsigned(snapshot.byte_capacity as u64),
    ));
    assert(lookup(dict, "bytes"@) == Some(ValueView::Bytes(snapshot.bytes@)));
}

} // verus!
