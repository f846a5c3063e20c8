//! Linear memories and their creator. Mapping, protecting and unmapping address space is the
//! host's work: each step says what the host is to do and takes what came of it.

use vstd::arithmetic::power2::is_pow2;
use vstd::prelude::*;

use crate::growth::{growth_refusal, grow_request, GrowRequest};
use crate::layout::{LayoutError, MemoryLayout, MemoryRequest};
use crate::text::{decimal, join, with_number};
use crate::tracker::{HostMemoryTracker, RegionRecord, TrackerView};

verus! {

/// Address space to give back to the host.
#[derive(Debug, Clone, Copy, PartialEq, Eq, Structural)]
pub struct Unmapping {
    /// Base address of the mapping.
    pub base_addr: usize,
    /// Its size.
    pub mapped_bytes: usize,
}

/// A mapping that is not yet a linear memory: none of it is accessible.
#[derive(Debug, Clone, Copy, PartialEq, Eq, Structural)]
pub struct MappedMemory {
    /// Base address of the mapping.
    pub base_addr: usize,
    /// The sizes it was made for.
    pub layout: MemoryLayout,
}

/// A mapping that could not become a linear memory.
#[derive(Debug)]
pub struct FailedMemory {
    /// The mapping to give back.
    pub unmapping: Unmapping,
    /// What went wrong.
    pub message: String,
}

impl MemoryLayout {
    /// Takes what came of mapping `mapped_bytes` inaccessible bytes: the address, or the
    /// text of the operating-system error.
    pub fn mapped(self, mapping: Result<usize, String>) -> (r: Result<MappedMemory, String>)
        ensures
            match r {
                Ok(mapped) => mapping == Ok::<usize, String>(mapped.base_addr) && mapped.base_addr
                    != 0 && mapped.layout == self,
                Err(e) => match mapping {
                    Ok(address) => address == 0 && e@ == "mmap returned null"@,
                    Err(os_error) => e@ == "mmap failed for "@ + decimal(self.mapped_bytes as nat)
                        + " bytes: "@ + os_error@,
                },
            },
    {
        match mapping {
            Ok(base_addr) => {
                if base_addr == 0 {
                    Err("mmap returned null".to_owned())
                } else {
                    Ok(MappedMemory { base_addr, layout: self })
                }
            },
            Err(os_error) => {
                let message = with_number(
                    String::new(),
                    "mmap failed for ",
                    self.mapped_bytes as u64,
                );
                let message = message.concat(" bytes: ").concat(os_error.as_str());
                assert(message@ =~= "mmap failed for "@ + decimal(self.mapped_bytes as nat)
                    + " bytes: "@ + os_error@);
                Err(message)
            },
        }
    }
}

impl MappedMemory {
    /// The record that the tracker keeps of the memory at its start.
    pub open spec fn record(self) -> RegionRecord {
        RegionRecord {
            base_addr: self.base_addr,
            byte_size: self.layout.initial_size,
            byte_capacity: self.layout.byte_capacity,
            accessible_bytes: self.layout.accessible_bytes,
            mapped_bytes: self.layout.mapped_bytes,
            guard_bytes: self.layout.guard_bytes,
        }
    }

    /// The mapping, to give back.
    pub open spec fn unmapping(self) -> Unmapping {
        Unmapping { base_addr: self.base_addr, mapped_bytes: self.layout.mapped_bytes }
    }

    /// How many bytes from the base the host is to make readable and writable before the
    /// memory is finished; `None` if there are none.
    pub fn protection(&self) -> (r: Option<usize>)
        ensures
            r == if self.layout.accessible_bytes > 0 {
                Some(self.layout.accessible_bytes)
            } else {
                None
            },
    {
        if self.layout.accessible_bytes > 0 {
            Some(self.layout.accessible_bytes)
        } else {
            None
        }
    }

    /// The host was asked to protect pages and could not.
    pub open spec fn protection_failed(self, protection: Result<(), String>) -> bool {
        self.layout.accessible_bytes > 0 && protection is Err
    }
}

/// A creator as a mathematical value.
pub struct CreatorView {
    /// The tracker of the memories that it has made.
    pub tracker: TrackerView,
    /// The size that new memories start at, at least.
    pub initial_size_floor: Option<usize>,
}

/// Makes mmap-backed linear memories and records live-region metadata for quiescent
/// snapshots.
#[derive(Debug)]
pub struct TrackingMemoryCreator {
    tracker: HostMemoryTracker,
    initial_size_floor: Option<usize>,
}

impl View for TrackingMemoryCreator {
    type V = CreatorView;

    closed spec fn view(&self) -> CreatorView {
        CreatorView { tracker: self.tracker@, initial_size_floor: self.initial_size_floor }
    }
}

impl Default for TrackingMemoryCreator {
    fn default() -> (r: Self)
        ensures
            r@ == (CreatorView { tracker: TrackerView::fresh(), initial_size_floor: None }),
            r@.tracker.wf(),
    {
        Self::new()
    }
}

impl CreatorView {
    /// What the creator asks for when a module declares the given sizes.
    pub open spec fn request(
        self,
        minimum: usize,
        maximum: Option<usize>,
        reserved_size_in_bytes: Option<usize>,
        guard_size_in_bytes: usize,
    ) -> MemoryRequest {
        MemoryRequest {
            minimum,
            initial_size_floor: self.initial_size_floor,
            maximum,
            reserved_size_in_bytes,
            guard_size_in_bytes,
        }
    }
}

impl TrackingMemoryCreator {
    /// Create a new tracking memory creator and tracker.
    #[must_use]
    pub fn new() -> (r: Self)
        ensures
            r@ == (CreatorView { tracker: TrackerView::fresh(), initial_size_floor: None }),
            r@.tracker.wf(),
    {
        TrackingMemoryCreator { tracker: HostMemoryTracker::default(), initial_size_floor: None }
    }

    /// Create a new tracking memory creator whose fresh allocations start at least
    /// `initial_size_floor` bytes, so that a fresh memory can have the shape of a captured
    /// snapshot without running guest code merely to grow it.
    #[must_use]
    pub fn new_with_initial_size_floor(initial_size_floor: usize) -> (r: Self)
        ensures
            r@ == (CreatorView {
                tracker: TrackerView::fresh(),
                initial_size_floor: Some(initial_size_floor),
            }),
            r@.tracker.wf(),
    {
        TrackingMemoryCreator {
            tracker: HostMemoryTracker::default(),
            initial_size_floor: Some(initial_size_floor),
        }
    }

    /// Return the tracker.
    #[must_use]
    pub fn tracker(&self) -> (r: &HostMemoryTracker)
        ensures
            r@ == self@.tracker,
    {
        &self.tracker
    }

    /// Return the tracker, to record what happens to the memories.
    pub fn tracker_mut(&mut self) -> (r: &mut HostMemoryTracker)
        ensures
            r@ == old(self)@.tracker,
            final(self)@ == (CreatorView { tracker: final(r)@, ..old(self)@ }),
    {
        &mut self.tracker
    }

    /// Starts a new memory: works out its layout, for which the host is then to map
    /// `mapped_bytes` inaccessible bytes.
    pub fn new_memory(
        &self,
        minimum: usize,
        maximum: Option<usize>,
        reserved_size_in_bytes: Option<usize>,
        guard_size_in_bytes: usize,
        page_size: Result<usize, String>,
    ) -> (r: Result<MemoryLayout, String>)
        requires
            page_size matches Ok(page) ==> is_pow2(page as int),
        ensures
            ({
                let request = self@.request(
                    minimum,
                    maximum,
                    reserved_size_in_bytes,
                    guard_size_in_bytes,
                );
                match page_size {
                    Err(e) => r == Err::<MemoryLayout, String>(e),
                    Ok(page) => match r {
                        Ok(layout) => request.layout(page) == Ok::<MemoryLayout, LayoutError>(
                            layout,
                        ),
                        Err(e) => request.layout(page) matches Err(error) && e@ == error.text(),
                    },
                }
            }),
    {
        let page: usize = match page_size {
            Ok(page) => page,
            Err(e) => return Err(e),
        };
        let request = MemoryRequest {
            minimum,
            initial_size_floor: self.initial_size_floor,
            maximum,
            reserved_size_in_bytes,
            guard_size_in_bytes,
        };
        request.plan(page)
    }

    /// Makes a mapping a live linear memory, unless the host was asked to protect pages and
    /// says that it failed. `protection` carries the text of the operating-system error; it
    /// is read only where protection was asked for.
    pub fn finish_memory(&mut self, mapped: MappedMemory, protection: Result<(), String>) -> (r:
        Result<TrackedLinearMemory, FailedMemory>)
        requires
            old(self)@.tracker.wf(),
            !mapped.protection_failed(protection) ==> old(self)@.tracker.has_room_for(
                mapped.record(),
            ),
        ensures
            final(self)@.tracker.wf(),
            match r {
                Ok(memory) => {
                    &&& !mapped.protection_failed(protection)
                    &&& final(self)@ == (CreatorView {
                        tracker: old(self)@.tracker.after_allocation(mapped.record()),
                        ..old(self)@
                    })
                    &&& memory@ == (MemoryView {
                        id: old(self)@.tracker.fresh_id(),
                        base_addr: mapped.base_addr,
                        mapped_bytes: mapped.layout.mapped_bytes,
                    })
                    &&& memory@.is_live_in(final(self)@.tracker)
                },
                Err(failed) => {
                    &&& mapped.protection_failed(protection)
                    &&& final(self)@ == old(self)@
                    &&& failed.unmapping == mapped.unmapping()
                    &&& failed.message@ == "mprotect failed: "@ + protection->Err_0@
                },
            },
    {
        if mapped.layout.accessible_bytes > 0 {
            if let Err(e) = protection {
                return Err(
                    FailedMemory {
                        unmapping: Unmapping {
                            base_addr: mapped.base_addr,
                            mapped_bytes: mapped.layout.mapped_bytes,
                        },
                        message: join("mprotect failed: ", e.as_str()),
                    },
                );
            }
        }
        let id: u64 = self.tracker.record_allocation(
            mapped.base_addr,
            mapped.layout.initial_size,
            mapped.layout.byte_capacity,
            mapped.layout.accessible_bytes,
            mapped.layout.mapped_bytes,
            mapped.layout.guard_bytes,
        );
        Ok(
            TrackedLinearMemory {
                id,
                base_addr: mapped.base_addr,
                mapped_bytes: mapped.layout.mapped_bytes,
            },
        )
    }
}

/// A linear memory as a mathematical value.
pub struct MemoryView {
    /// Its region id.
    pub id: u64,
    /// Base address of its mapping.
    pub base_addr: usize,
    /// Size of its mapping.
    pub mapped_bytes: usize,
}

impl MemoryView {
    /// The tracker has a live record of the memory.
    pub open spec fn is_live_in(self, tracker: TrackerView) -> bool {
        &&& tracker.regions.contains_key(self.id)
        &&& tracker.regions[self.id].base_addr == self.base_addr
        &&& tracker.regions[self.id].mapped_bytes == self.mapped_bytes
    }
}

/// A live linear memory. Its sizes are those of its record in the tracker.
#[derive(Debug)]
pub struct TrackedLinearMemory {
    id: u64,
    base_addr: usize,
    mapped_bytes: usize,
}

impl View for TrackedLinearMemory {
    type V = MemoryView;

    closed spec fn view(&self) -> MemoryView {
        MemoryView {
            id: self.id,
            base_addr: self.base_addr,
            mapped_bytes: self.mapped_bytes,
        }
    }
}

impl TrackedLinearMemory {
    /// The region id in the tracker.
    pub fn id(&self) -> (r: u64)
        ensures
            r == self@.id,
    {
        self.id
    }

    /// The current Wasm size in bytes.
    pub fn byte_size(&self, tracker: &HostMemoryTracker) -> (r: usize)
        requires
            self@.is_live_in(tracker@),
        ensures
            r == tracker@.regions[self@.id].byte_size,
    {
        match tracker.region(self.id) {
            Some(record) => record.byte_size,
            None => 0,
        }
    }

    /// The size in bytes that the memory can grow to in place.
    pub fn byte_capacity(&self, tracker: &HostMemoryTracker) -> (r: usize)
        requires
            self@.is_live_in(tracker@),
        ensures
            r == tracker@.regions[self@.id].byte_capacity,
    {
        match tracker.region(self.id) {
            Some(record) => record.byte_capacity,
            None => 0,
        }
    }

    /// Base address of the memory.
    pub fn as_ptr(&self) -> (r: usize)
        ensures
            r == self@.base_addr,
    {
        self.base_addr
    }

    /// Checks a growth to `new_size` bytes; see [`HostMemoryTracker::grow_region_record`].
    pub fn grow_to(
        &self,
        tracker: &HostMemoryTracker,
        new_size: usize,
        page_size: Result<usize, String>,
    ) -> (r: Result<GrowRequest, String>)
        requires
            self@.is_live_in(tracker@),
            page_size matches Ok(page) ==> is_pow2(page as int),
        ensures
            ({
                let record = tracker@.regions[self@.id];
                match r {
                    Ok(request) => growth_refusal(record, new_size, page_size) is None && request
                        == grow_request(self@.id, record, new_size, page_size->Ok_0),
                    Err(e) => growth_refusal(record, new_size, page_size) == Some(e@),
                }
            }),
    {
        tracker.grow_region_record(self.id, new_size, page_size)
    }

    /// Ends the memory: its region is no longer live, and the host is to give back its
    /// mapping.
    #[must_use]
    pub fn release(self, tracker: &mut HostMemoryTracker) -> (r: Unmapping)
        requires
            old(tracker)@.wf(),
        ensures
            final(tracker)@ == old(tracker)@.after_deallocation(self@.id),
            final(tracker)@.wf(),
            r == (Unmapping { base_addr: self@.base_addr, mapped_bytes: self@.mapped_bytes }),
    {
        tracker.record_deallocation(self.id);
        Unmapping { base_addr: self.base_addr, mapped_bytes: self.mapped_bytes }
    }
}

} // verus!
