//! Quiescent snapshots of the live regions, and restoring them in place. Copying bytes out of
//! and into host memory is the host's work: a snapshot says what to read and takes the bytes,
//! a restore says what to write.

use std::collections::HashMap;

use vstd::prelude::*;

use crate::text::{decimal, with_number};
use crate::tracker::{HostMemoryRegion, HostMemoryTracker, RegionRecord};

verus! {

broadcast use vstd::std_specs::hash::group_hash_axioms;

/// A copied quiescent snapshot of one host-managed linear memory.
#[derive(Debug, Clone, PartialEq, Eq)]
pub struct HostMemoryRegionSnapshot {
    /// Stable region id.
    pub id: u64,
    /// Capacity at capture time.
    pub byte_capacity: usize,
    /// Copied bytes for the current Wasm byte size.
    pub bytes: Vec<u8>,
}

/// A snapshot as a mathematical value.
pub struct SnapshotView {
    pub id: u64,
    pub byte_capacity: usize,
    pub bytes: Seq<u8>,
}

impl View for HostMemoryRegionSnapshot {
    type V = SnapshotView;

    open spec fn view(&self) -> SnapshotView {
        SnapshotView { id: self.id, byte_capacity: self.byte_capacity, bytes: self.bytes@ }
    }
}

/// Summary of a quiescent restore into live host-managed memories.
#[derive(Debug, Clone, Copy, PartialEq, Eq, Structural)]
pub struct HostMemoryRestoreStats {
    /// Number of regions restored.
    pub restored_regions: usize,
    /// Total bytes copied back into live memories.
    pub restored_bytes: usize,
}

impl Default for HostMemoryRestoreStats {
    fn default() -> (r: Self)
        ensures
            r == (HostMemoryRestoreStats { restored_regions: 0, restored_bytes: 0 }),
    {
        HostMemoryRestoreStats { restored_regions: 0, restored_bytes: 0 }
    }
}

/// Bytes for the host to copy out of a live region.
#[derive(Debug, Clone, Copy, PartialEq, Eq, Structural)]
pub struct HostMemoryRead {
    /// The region.
    pub id: u64,
    /// Where its bytes start.
    pub base_addr: usize,
    /// How many there are; never zero.
    pub byte_size: usize,
}

/// Bytes for the host to copy into a live region: all of one snapshot.
#[derive(Debug, Clone, Copy, PartialEq, Eq, Structural)]
pub struct HostMemoryWrite {
    /// Where the bytes go.
    pub base_addr: usize,
    /// The snapshot they come from, by its place among those given.
    pub snapshot: usize,
}

/// What a restore comes to.
#[derive(Debug)]
pub struct HostMemoryRestore {
    /// What the host is to write, in this order, whatever the outcome: the snapshots before
    /// one that is refused are restored.
    pub writes: Vec<HostMemoryWrite>,
    /// The summary, or why the restore stopped.
    pub outcome: Result<HostMemoryRestoreStats, String>,
}

/// Which snapshots a restore takes.
#[derive(Debug, Clone, Copy, PartialEq, Eq, Structural)]
pub enum RestoreMode {
    /// Those of exactly the live size.
    Exact,
    /// As a restore that grows memories would; growing itself is refused.
    Growing,
}

/// Why a snapshot is not restored.
#[derive(Debug, Clone, Copy, PartialEq, Eq, Structural)]
pub enum RestoreError {
    /// Its region is not live.
    NotLive { id: u64 },
    /// It is not of the live size.
    SizeMismatch { id: u64, snapshot: usize, live: usize },
    /// Its capacity is not the live one.
    CapacityMismatch { id: u64, snapshot: usize, live: usize },
    /// It is larger than the live capacity.
    ExceedsCapacity { id: u64, snapshot: usize, capacity: usize },
    /// It is smaller than the live memory.
    CannotShrink { id: u64, snapshot: usize, live: usize },
    /// It is larger than the live memory.
    GrowUnsupported,
}

/// A region id, then `text`, then a number, then `text2`, then a number.
pub open spec fn region_text(id: u64, text: &str, a: usize, text2: &str, b: usize) -> Seq<char> {
    "linear-memory region "@ + decimal(id as nat) + text@ + decimal(a as nat) + text2@ + decimal(
        b as nat,
    )
}

impl RestoreError {
    /// The message for the error.
    pub open spec fn text(self) -> Seq<char> {
        match self {
            RestoreError::NotLive { id } => "linear-memory region "@ + decimal(id as nat)
                + " is not live"@,
            RestoreError::SizeMismatch { id, snapshot, live } => region_text(
                id,
                " size mismatch: snapshot=",
                snapshot,
                " live=",
                live,
            ),
            RestoreError::CapacityMismatch { id, snapshot, live } => region_text(
                id,
                " capacity mismatch: snapshot=",
                snapshot,
                " live=",
                live,
            ),
            RestoreError::ExceedsCapacity { id, snapshot, capacity } => region_text(
                id,
                " snapshot size ",
                snapshot,
                " exceeds live capacity ",
                capacity,
            ),
            RestoreError::CannotShrink { id, snapshot, live } => region_text(
                id,
                " cannot shrink live memory: snapshot=",
                snapshot,
                " live=",
                live,
            ),
            RestoreError::GrowUnsupported =>
                "metadata-only live-region grow is unsupported: it changes tracker state without updating Wasmtime VM memory length; create the restore target with TrackingMemoryCreator::new_with_initial_size_floor instead"@,
        }
    }

    /// The message for the error.
    pub fn message(&self) -> (r: String)
        ensures
            r@ == self.text(),
    {
        match *self {
            RestoreError::NotLive { id } => {
                let message = with_number(String::new(), "linear-memory region ", id);
                let message = message.concat(" is not live");
                assert(message@ =~= self.text());
                message
            },
            RestoreError::SizeMismatch { id, snapshot, live } => region_message(
                id,
                " size mismatch: snapshot=",
                snapshot,
                " live=",
                live,
            ),
            RestoreError::CapacityMismatch { id, snapshot, live } => region_message(
                id,
                " capacity mismatch: snapshot=",
                snapshot,
                " live=",
                live,
            ),
            RestoreError::ExceedsCapacity { id, snapshot, capacity } => region_message(
                id,
                " snapshot size ",
                snapshot,
                " exceeds live capacity ",
                capacity,
            ),
            RestoreError::CannotShrink { id, snapshot, live } => region_message(
                id,
                " cannot shrink live memory: snapshot=",
                snapshot,
                " live=",
                live,
            ),
            RestoreError::GrowUnsupported =>
                "metadata-only live-region grow is unsupported: it changes tracker state without updating Wasmtime VM memory length; create the restore target with TrackingMemoryCreator::new_with_initial_size_floor instead".to_owned(),
        }
    }
}

/// A message about a region with two sizes.
fn region_message(id: u64, text: &str, a: usize, text2: &str, b: usize) -> (r: String)
    ensures
        r@ == region_text(id, text, a, text2, b),
{
    let message = with_number(String::new(), "linear-memory region ", id);
    let message = with_number(message, text, a as u64);
    let message = with_number(message, text2, b as u64);
    assert(message@ =~= region_text(id, text, a, text2, b));
    message
}

/// Why `snapshot` is not restored into the live regions; `None` if it is.
pub open spec fn refusal(
    mode: RestoreMode,
    regions: Map<u64, RegionRecord>,
    snapshot: HostMemoryRegionSnapshot,
) -> Option<RestoreError> {
    let id = snapshot.id;
    let live = regions[id];
    let size = snapshot.bytes.len();
    let capacity_differs = snapshot.byte_capacity != live.byte_capacity;
    let capacity_mismatch = RestoreError::CapacityMismatch {
        id,
        snapshot: snapshot.byte_capacity,
        live: live.byte_capacity,
    };
    if !regions.contains_key(id) {
        Some(RestoreError::NotLive { id })
    } else {
        match mode {
            RestoreMode::Exact => {
                if size != live.byte_size {
                    Some(
                        RestoreError::SizeMismatch { id, snapshot: size, live: live.byte_size },
                    )
                } else if capacity_differs {
                    Some(capacity_mismatch)
                } else {
                    None
                }
            },
            RestoreMode::Growing => {
                if capacity_differs {
                    Some(capacity_mismatch)
                } else if size > live.byte_capacity {
                    Some(
                        RestoreError::ExceedsCapacity {
                            id,
                            snapshot: size,
                            capacity: live.byte_capacity,
                        },
                    )
                } else if size < live.byte_size {
                    Some(RestoreError::CannotShrink { id, snapshot: size, live: live.byte_size })
                } else if size > live.byte_size {
                    Some(RestoreError::GrowUnsupported)
                } else {
                    None
                }
            },
        }
    }
}

/// The first place from `from` on whose snapshot is refused; the number of snapshots if none
/// is.
pub open spec fn first_refused(
    mode: RestoreMode,
    regions: Map<u64, RegionRecord>,
    snapshots: Seq<HostMemoryRegionSnapshot>,
    from: nat,
) -> nat
    decreases snapshots.len() - from,
{
    if from >= snapshots.len() {
        snapshots.len()
    } else if refusal(mode, regions, snapshots[from as int]) is Some {
        from
    } else {
        first_refused(mode, regions, snapshots, from + 1)
    }
}

/// The writes that restore the first `n` snapshots: one for each that has bytes.
pub open spec fn restore_writes(
    regions: Map<u64, RegionRecord>,
    snapshots: Seq<HostMemoryRegionSnapshot>,
    n: nat,
) -> Seq<HostMemoryWrite>
    decreases n,
{
    if n == 0 {
        Seq::empty()
    } else {
        let earlier = restore_writes(regions, snapshots, (n - 1) as nat);
        let snapshot = snapshots[n - 1];
        if snapshot.bytes@.len() == 0 {
            earlier
        } else {
            earlier.push(
                HostMemoryWrite {
                    base_addr: regions[snapshot.id].base_addr,
                    snapshot: (n - 1) as usize,
                },
            )
        }
    }
}

/// The number of bytes in the first `n` snapshots.
pub open spec fn total_bytes(snapshots: Seq<HostMemoryRegionSnapshot>, n: nat) -> nat
    decreases n,
{
    if n == 0 {
        0
    } else {
        total_bytes(snapshots, (n - 1) as nat) + snapshots[n - 1].bytes@.len()
    }
}

/// `restore` is what restoring `snapshots` into the live regions comes to.
pub open spec fn restores(
    mode: RestoreMode,
    regions: Map<u64, RegionRecord>,
    snapshots: Seq<HostMemoryRegionSnapshot>,
    restore: HostMemoryRestore,
) -> bool {
    let n = first_refused(mode, regions, snapshots, 0);
    &&& restore.writes@ == restore_writes(regions, snapshots, n)
    &&& match restore.outcome {
        Ok(stats) => n == snapshots.len() && stats.restored_regions == n && stats.restored_bytes
            == total_bytes(snapshots, n),
        Err(e) => refusal(mode, regions, snapshots[n as int]) matches Some(error) && n
            < snapshots.len() && e@ == error.text(),
    }
}

/// A longer prefix has no fewer bytes.
proof fn lemma_total_bytes_grows(snapshots: Seq<HostMemoryRegionSnapshot>, m: nat, n: nat)
    requires
        m <= n,
    ensures
        total_bytes(snapshots, m) <= total_bytes(snapshots, n),
    decreases n,
{
    if m < n {
        lemma_total_bytes_grows(snapshots, m, (n - 1) as nat);
    }
}

/// `reads` asks for the bytes of every live region that has any, once each.
pub open spec fn lists_reads(reads: Seq<HostMemoryRead>, regions: Map<u64, RegionRecord>) -> bool {
    &&& forall|i: int|
        0 <= i < reads.len() ==> {
            &&& regions.contains_key(#[trigger] reads[i].id)
            &&& reads[i].base_addr == regions[reads[i].id].base_addr
            &&& reads[i].byte_size == regions[reads[i].id].byte_size
            &&& reads[i].byte_size != 0
        }
    &&& forall|i: int, j: int|
        0 <= i < j < reads.len() ==> #[trigger] reads[i].id != #[trigger] reads[j].id
    &&& forall|id: u64| #[trigger]
        regions.contains_key(id) && regions[id].byte_size != 0 ==> exists|i: int|
            0 <= i < reads.len() && #[trigger] reads[i].id == id
}

/// `contents` holds all bytes of every live region that has any.
pub open spec fn covers_regions(
    contents: Map<u64, Vec<u8>>,
    regions: Map<u64, RegionRecord>,
) -> bool {
    forall|id: u64| #[trigger]
        regions.contains_key(id) && regions[id].byte_size != 0 ==> contents.contains_key(id)
            && contents[id]@.len() == regions[id].byte_size
}

/// The bytes captured of region `id`.
pub open spec fn captured_bytes(
    contents: Map<u64, Vec<u8>>,
    regions: Map<u64, RegionRecord>,
    id: u64,
) -> Seq<u8> {
    if regions[id].byte_size == 0 {
        Seq::empty()
    } else {
        contents[id]@
    }
}

/// `snapshots` holds every live region exactly once, in some order, with its bytes out of
/// `contents`.
pub open spec fn lists_snapshots(
    snapshots: Seq<HostMemoryRegionSnapshot>,
    regions: Map<u64, RegionRecord>,
    contents: Map<u64, Vec<u8>>,
) -> bool {
    &&& snapshots.len() == regions.len()
    &&& forall|i: int|
        0 <= i < snapshots.len() ==> {
            &&& regions.contains_key(#[trigger] snapshots[i].id)
            &&& snapshots[i].byte_capacity == regions[snapshots[i].id].byte_capacity
            &&& snapshots[i].bytes@ == captured_bytes(contents, regions, snapshots[i].id)
        }
    &&& forall|i: int, j: int|
        0 <= i < j < snapshots.len() ==> #[trigger] snapshots[i].id != #[trigger] snapshots[j].id
    &&& forall|id: u64| #[trigger]
        regions.contains_key(id) ==> exists|i: int|
            0 <= i < snapshots.len() && #[trigger] snapshots[i].id == id
}

/// `snapshot` is that of the region that `region` describes.
spec fn captured_as(
    snapshot: HostMemoryRegionSnapshot,
    region: HostMemoryRegion,
    regions: Map<u64, RegionRecord>,
    contents: Map<u64, Vec<u8>>,
) -> bool {
    &&& snapshot.id == region.id
    &&& snapshot.byte_capacity == region.byte_capacity
    &&& snapshot.bytes@ == captured_bytes(contents, regions, region.id)
}

impl HostMemoryTracker {
    /// What the host is to copy out for a snapshot of the live regions.
    ///
    /// The bytes may only be copied at a quiescent point where no Wasm frames are live and
    /// the store cannot re-enter guest code.
    #[must_use]
    pub fn snapshot_reads(&self) -> (r: Vec<HostMemoryRead>)
        ensures
            lists_reads(r@, self@.regions),
    {
        let list = self.live_regions();
        let mut reads: Vec<HostMemoryRead> = Vec::new();
        let ghost regions = self@.regions;
        for k in 0..list.len()
            invariant
                crate::tracker::lists_regions(list@, regions),
                forall|i: int|
                    0 <= i < reads.len() ==> {
                        &&& regions.contains_key(#[trigger] reads[i].id)
                        &&& reads[i].base_addr == regions[reads[i].id].base_addr
                        &&& reads[i].byte_size == regions[reads[i].id].byte_size
                        &&& reads[i].byte_size != 0
                        &&& exists|m: int| 0 <= m < k && #[trigger] list[m].id == reads[i].id
                    },
                forall|i: int, j: int|
                    0 <= i < j < reads.len() ==> #[trigger] reads[i].id != #[trigger] reads[j].id,
                forall|m: int|
                    0 <= m < k && #[trigger] list[m].byte_size != 0 ==> exists|i: int|
                        0 <= i < reads.len() && #[trigger] reads[i].id == list[m].id,
        {
            let region: HostMemoryRegion = list[k];
            if region.byte_size != 0 {
                let ghost earlier = reads@;
                reads.push(
                    HostMemoryRead {
                        id: region.id,
                        base_addr: region.base_addr,
                        byte_size: region.byte_size,
                    },
                );
                assert forall|m: int| 0 <= m < k + 1 && #[trigger] list[m].byte_size
                    != 0 implies exists|i: int|
                    0 <= i < reads.len() && #[trigger] reads[i].id == list[m].id by {
                    if m < k {
                        let i = choose|i: int|
                            0 <= i < earlier.len() && #[trigger] earlier[i].id == list[m].id;
                        assert(reads[i].id == list[m].id);
                    } else {
                        assert(reads[earlier.len() as int].id == list[m].id);
                    }
                }
            }
        }
        assert forall|id: u64| #[trigger]
            regions.contains_key(id) && regions[id].byte_size != 0 implies exists|i: int|
            0 <= i < reads.len() && #[trigger] reads[i].id == id by {
            let m = choose|m: int| 0 <= m < list.len() && #[trigger] list[m].id == id;
            assert(list[m].byte_size != 0);
        }
        reads
    }

    /// Makes the snapshot of all currently live linear memories out of the bytes that the
    /// host copied, by region id; see [`HostMemoryTracker::snapshot_reads`].
    #[must_use]
    pub fn snapshot_live_regions(&self, contents: HashMap<u64, Vec<u8>>) -> (r: Vec<
        HostMemoryRegionSnapshot,
    >)
        requires
            covers_regions(contents@, self@.regions),
        ensures
            lists_snapshots(r@, self@.regions, contents@),
    {
        let ghost all = contents@;
        let ghost regions = self@.regions;
        let mut contents = contents;
        let list = self.live_regions();
        let mut snapshots: Vec<HostMemoryRegionSnapshot> = Vec::new();
        for k in 0..list.len()
            invariant
                crate::tracker::lists_regions(list@, regions),
                covers_regions(all, regions),
                forall|m: int|
                    k <= m < list.len() && all.contains_key(#[trigger] list[m].id)
                        ==> contents@.contains_key(list[m].id) && contents@[list[m].id]
                        == all[list[m].id],
                snapshots.len() == k,
                forall|i: int|
                    0 <= i < k ==> captured_as(#[trigger] snapshots@[i], list@[i], regions, all),
        {
            let region: HostMemoryRegion = list[k];
            let mut bytes: Vec<u8> = Vec::new();
            assert(regions.contains_key(list[k as int].id));
            if region.byte_size != 0 {
                if let Some(found) = contents.remove(&region.id) {
                    bytes = found;
                }
            }
            assert(bytes@ =~= captured_bytes(all, regions, region.id));
            snapshots.push(
                HostMemoryRegionSnapshot {
                    id: region.id,
                    byte_capacity: region.byte_capacity,
                    bytes,
                },
            );
            assert(captured_as(snapshots@[k as int], list@[k as int], regions, all));
        }
        assert forall|id: u64| #[trigger] regions.contains_key(id) implies exists|i: int|
            0 <= i < snapshots.len() && #[trigger] snapshots[i].id == id by {
            let m = choose|m: int| 0 <= m < list.len() && #[trigger] list[m].id == id;
            assert(snapshots@[m].id == id);
        }
        snapshots
    }

    /// Why `snapshot` is not restored; `None` if it is.
    fn refused(&self, mode: RestoreMode, snapshot: &HostMemoryRegionSnapshot) -> (r: Option<
        RestoreError,
    >)
        ensures
            r == refusal(mode, self@.regions, *snapshot),
    {
        let id: u64 = snapshot.id;
        let size: usize = snapshot.bytes.len();
        let live: RegionRecord = match self.region(id) {
            Some(record) => record,
            None => return Some(RestoreError::NotLive { id }),
        };
        let capacity_differs = snapshot.byte_capacity != live.byte_capacity;
        let capacity_mismatch = RestoreError::CapacityMismatch {
            id,
            snapshot: snapshot.byte_capacity,
            live: live.byte_capacity,
        };
        match mode {
            RestoreMode::Exact => {
                if size != live.byte_size {
                    Some(
                        RestoreError::SizeMismatch { id, snapshot: size, live: live.byte_size },
                    )
                } else if capacity_differs {
                    Some(capacity_mismatch)
                } else {
                    None
                }
            },
            RestoreMode::Growing => {
                if capacity_differs {
                    Some(capacity_mismatch)
                } else if size > live.byte_capacity {
                    Some(
                        RestoreError::ExceedsCapacity {
                            id,
                            snapshot: size,
                            capacity: live.byte_capacity,
                        },
                    )
                } else if size < live.byte_size {
                    Some(RestoreError::CannotShrink { id, snapshot: size, live: live.byte_size })
                } else if size > live.byte_size {
                    Some(RestoreError::GrowUnsupported)
                } else {
                    None
                }
            },
        }
    }

    /// Takes the snapshots in order up to the first that is refused.
    fn restore(&self, mode: RestoreMode, snapshots: &[HostMemoryRegionSnapshot]) -> (r:
        HostMemoryRestore)
        requires
            total_bytes(snapshots@, snapshots@.len()) <= usize::MAX,
        ensures
            restores(mode, self@.regions, snapshots@, r),
    {
        let mut writes: Vec<HostMemoryWrite> = Vec::new();
        let mut restored = HostMemoryRestoreStats::default();
        for k in 0..snapshots.len()
            invariant
                total_bytes(snapshots@, snapshots@.len()) <= usize::MAX,
                first_refused(mode, self@.regions, snapshots@, 0) == first_refused(
                    mode,
                    self@.regions,
                    snapshots@,
                    k as nat,
                ),
                writes@ == restore_writes(self@.regions, snapshots@, k as nat),
                restored.restored_regions == k,
                restored.restored_bytes == total_bytes(snapshots@, k as nat),
        {
            let snapshot = &snapshots[k];
            if let Some(error) = self.refused(mode, snapshot) {
                return HostMemoryRestore { writes, outcome: Err(error.message()) };
            }
            let base_addr: usize = match self.region(snapshot.id) {
                Some(record) => record.base_addr,
                None => 0,
            };
            proof {
                lemma_total_bytes_grows(snapshots@, k as nat + 1, snapshots@.len());
            }
            let size: usize = snapshot.bytes.len();
            if size != 0 {
                writes.push(HostMemoryWrite { base_addr, snapshot: k });
            }
            restored.restored_regions = restored.restored_regions + 1;
            restored.restored_bytes = restored.restored_bytes + size;
        }
        HostMemoryRestore { writes, outcome: Ok(restored) }
    }

    /// Copy snapshot bytes back into currently live linear memories.
    ///
    /// The writes may only be made at a quiescent point, with the same live instance whose
    /// memories were captured. Byte sizes must match exactly: a restore does not pretend to
    /// restore memory-size metadata, globals, tables or host state.
    #[must_use]
    pub fn restore_live_regions(&self, snapshots: &[HostMemoryRegionSnapshot]) -> (r:
        HostMemoryRestore)
        requires
            total_bytes(snapshots@, snapshots@.len()) <= usize::MAX,
        ensures
            restores(RestoreMode::Exact, self@.regions, snapshots@, r),
    {
        self.restore(RestoreMode::Exact, snapshots)
    }

    /// Negative metadata-only grow probe for fresh-session restore.
    ///
    /// Kept only to fail loudly where the tracker's metadata would change without the VM's
    /// memory length: use [`HostMemoryTracker::restore_live_regions`] after creating a fresh
    /// session with `TrackingMemoryCreator::new_with_initial_size_floor`.
    #[must_use]
    pub fn restore_live_regions_growing(&self, snapshots: &[HostMemoryRegionSnapshot]) -> (r:
        HostMemoryRestore)
        requires
            total_bytes(snapshots@, snapshots@.len()) <= usize::MAX,
        ensures
            restores(RestoreMode::Growing, self@.regions, snapshots@, r),
    {
        self.restore(RestoreMode::Growing, snapshots)
    }
}

} // verus!
