//! Growing a live region in place. Making pages accessible is the host's work: a growth is
//! first checked, then the host protects the pages, then the growth is recorded.

use vstd::arithmetic::power2::is_pow2;
use vstd::prelude::*;

use crate::align::{can_round_up, round_up, rounded_up};
use crate::text::{decimal, join, with_number};
use crate::tracker::{
    larger, wrapped_successor, HostMemoryStats, HostMemoryTracker, RegionRecord, TrackerView,
};

verus! {

/// A growth that the region has room for.
#[derive(Debug, Clone, Copy, PartialEq, Eq, Structural)]
pub struct GrowRequest {
    /// The region.
    pub id: u64,
    /// Its base address.
    pub base_addr: usize,
    /// The Wasm size to grow to.
    pub new_size: usize,
    /// The bytes from the base that are to be accessible.
    pub accessible_bytes: usize,
    /// Whether the host has to make these bytes readable and writable first.
    pub protect: bool,
}

/// The message for a growth past the capacity.
pub open spec fn over_capacity_text(new_size: usize, byte_capacity: usize) -> Seq<char> {
    "linear memory grow to "@ + decimal(new_size as nat) + " exceeds reserved capacity "@ + decimal(
        byte_capacity as nat,
    )
}

/// Why `record` cannot grow to `new_size`: it is past the capacity, the page size is not
/// known, or the size cannot be rounded to whole pages. `None` if it can.
pub open spec fn growth_refusal(
    record: RegionRecord,
    new_size: usize,
    page_size: Result<usize, String>,
) -> Option<Seq<char>> {
    if new_size > record.byte_capacity {
        Some(over_capacity_text(new_size, record.byte_capacity))
    } else {
        match page_size {
            Err(e) => Some(e@),
            Ok(page) => if can_round_up(new_size as int, page as int) {
                None
            } else {
                Some("page alignment overflow"@)
            },
        }
    }
}

/// The growth of region `id` with `record` to `new_size`, in whole pages. No page is given up:
/// what was accessible stays so, also where the new size needs less.
pub open spec fn grow_request(
    id: u64,
    record: RegionRecord,
    new_size: usize,
    page_size: usize,
) -> GrowRequest {
    let accessible_bytes = larger(
        rounded_up(new_size as int, page_size as int) as usize,
        record.accessible_bytes,
    );
    GrowRequest {
        id,
        base_addr: record.base_addr,
        new_size,
        accessible_bytes,
        protect: accessible_bytes > record.accessible_bytes,
    }
}

/// The host was asked to protect pages and could not.
pub open spec fn protection_failed(request: GrowRequest, protection: Result<(), String>) -> bool {
    request.protect && protection is Err
}

impl TrackerView {
    /// The tracker once a growth has been carried out.
    pub open spec fn after_grow_operation(self, request: GrowRequest) -> TrackerView {
        let grown = self.after_growth(request.id, request.new_size, request.accessible_bytes);
        TrackerView {
            stats: HostMemoryStats {
                grow_count: wrapped_successor(self.stats.grow_count),
                ..grown.stats
            },
            ..grown
        }
    }
}

impl HostMemoryTracker {
    /// Checks a growth of live region `id` to `new_size` bytes. Nothing is changed; where
    /// the request says so the host is to protect the pages before it is completed.
    pub fn grow_region_record(
        &self,
        id: u64,
        new_size: usize,
        page_size: Result<usize, String>,
    ) -> (r: Result<GrowRequest, String>)
        requires
            self@.regions.contains_key(id),
            page_size matches Ok(page) ==> is_pow2(page as int),
        ensures
            match r {
                Ok(request) => growth_refusal(self@.regions[id], new_size, page_size) is None
                    && request == grow_request(id, self@.regions[id], new_size, page_size->Ok_0),
                Err(e) => growth_refusal(self@.regions[id], new_size, page_size) == Some(e@),
            },
    {
        let record: RegionRecord = match self.region(id) {
            Some(record) => record,
            None => return Err(String::new()),
        };
        if new_size > record.byte_capacity {
            let message = with_number(String::new(), "linear memory grow to ", new_size as u64);
            let message = with_number(
                message,
                " exceeds reserved capacity ",
                record.byte_capacity as u64,
            );
            assert(message@ =~= over_capacity_text(new_size, record.byte_capacity));
            return Err(message);
        }
        let page: usize = match page_size {
            Ok(page) => page,
            Err(e) => return Err(e),
        };
        match round_up(new_size, page) {
            Ok(needed) => {
                let protect = needed > record.accessible_bytes;
                let accessible_bytes: usize = if protect {
                    needed
                } else {
                    record.accessible_bytes
                };
                Ok(
                    GrowRequest {
                        id,
                        base_addr: record.base_addr,
                        new_size,
                        accessible_bytes,
                        protect,
                    },
                )
            },
            Err(e) => Err(e),
        }
    }

    /// Records a growth, unless the host was asked to protect pages and says that it
    /// failed. `protection` carries the text of the operating-system error; it is read
    /// only where protection was asked for.
    pub fn complete_growth(&mut self, request: GrowRequest, protection: Result<(), String>) -> (r:
        Result<(), String>)
        requires
            old(self)@.wf(),
            old(self)@.regions.contains_key(request.id),
            !protection_failed(request, protection) ==> old(self)@.has_room_to_grow(
                request.id,
                request.accessible_bytes,
            ),
        ensures
            final(self)@.wf(),
            match r {
                Ok(()) => !protection_failed(request, protection) && final(self)@
                    == old(self)@.after_grow_operation(request),
                Err(e) => protection_failed(request, protection) && e@ == "mprotect failed: "@
                    + protection->Err_0@ && final(self)@ == old(self)@,
            },
    {
        if request.protect {
            if let Err(e) = protection {
                return Err(join("mprotect failed: ", e.as_str()));
            }
        }
        self.record_growth_locked(request.id, request.new_size, request.accessible_bytes);
        self.count_growth();
        Ok(())
    }
}

} // verus!
