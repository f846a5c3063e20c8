//! The sizes of a new linear memory: how large it starts, how far it can grow in place,
//! and how many bytes of address space it takes.

use vstd::arithmetic::power2::is_pow2;
use vstd::prelude::*;

use crate::align::{can_round_up, round_up, rounded_up};
use crate::text::{decimal, with_number};
use crate::tracker::larger;

verus! {

/// What is asked of a new linear memory, in bytes.
#[derive(Debug, Clone, Copy, PartialEq, Eq, Structural)]
pub struct MemoryRequest {
    /// The least size that the module declares.
    pub minimum: usize,
    /// A size that the memory starts at even if the module declares less.
    pub initial_size_floor: Option<usize>,
    /// The size that the memory may not exceed.
    pub maximum: Option<usize>,
    /// How much address space to set aside for growing in place.
    pub reserved_size_in_bytes: Option<usize>,
    /// How much inaccessible address space to put after it.
    pub guard_size_in_bytes: usize,
}

/// The sizes of a linear memory, in bytes.
#[derive(Debug, Clone, Copy, PartialEq, Eq, Structural)]
pub struct MemoryLayout {
    /// The Wasm size that the memory starts at.
    pub initial_size: usize,
    /// The size that it can grow to in place: whole pages.
    pub byte_capacity: usize,
    /// The part that is accessible at the start: whole pages.
    pub accessible_bytes: usize,
    /// The guard after the capacity: whole pages.
    pub guard_bytes: usize,
    /// The size of the mapping: capacity and guard, and at least a page.
    pub mapped_bytes: usize,
}

/// Why a request has no layout.
pub enum LayoutError {
    /// The memory would start larger than it may become.
    ExceedsMaximum { initial_size: usize, maximum: usize },
    /// Rounding to whole pages leaves the address range.
    Alignment,
    /// Capacity and guard together leave the address range.
    MappingOverflow,
}

impl LayoutError {
    /// The message for the error.
    pub open spec fn text(self) -> Seq<char> {
        match self {
            LayoutError::ExceedsMaximum { initial_size, maximum } => "linear memory initial size "@
                + decimal(initial_size as nat) + " exceeds maximum "@ + decimal(maximum as nat),
            LayoutError::Alignment => "page alignment overflow"@,
            LayoutError::MappingOverflow => "linear memory mapping size overflow"@,
        }
    }
}

/// The smaller of two sizes.
pub open spec fn smaller(a: usize, b: usize) -> usize {
    if a <= b {
        a
    } else {
        b
    }
}

impl MemoryRequest {
    /// The size that the memory starts at: the declared minimum, or the floor if that is
    /// larger.
    pub open spec fn initial_size(self) -> usize {
        match self.initial_size_floor {
            Some(floor) => larger(floor, self.minimum),
            None => self.minimum,
        }
    }

    /// The memory would start larger than it may become.
    pub open spec fn starts_too_large(self) -> bool {
        self.maximum matches Some(maximum) && self.initial_size() > maximum
    }

    /// The bytes to be able to grow to, before rounding: what is reserved, else the
    /// maximum, else the minimum; no more than the maximum, no less than the initial size.
    pub open spec fn wanted_capacity(self) -> usize {
        let wanted = match (self.reserved_size_in_bytes, self.maximum) {
            (Some(reserved), Some(maximum)) => smaller(reserved, maximum),
            (Some(reserved), None) => reserved,
            (None, Some(maximum)) => maximum,
            (None, None) => self.minimum,
        };
        larger(wanted, self.initial_size())
    }

    /// The layout for pages of `page_size` bytes, or why there is none.
    pub open spec fn layout(self, page_size: usize) -> Result<MemoryLayout, LayoutError> {
        let page = page_size as int;
        let capacity = rounded_up(self.wanted_capacity() as int, page);
        let guard = rounded_up(self.guard_size_in_bytes as int, page);
        if self.starts_too_large() {
            Err(
                LayoutError::ExceedsMaximum {
                    initial_size: self.initial_size(),
                    maximum: self.maximum->0,
                },
            )
        } else if !can_round_up(self.wanted_capacity() as int, page) || !can_round_up(
            self.guard_size_in_bytes as int,
            page,
        ) {
            Err(LayoutError::Alignment)
        } else if capacity + guard > usize::MAX {
            Err(LayoutError::MappingOverflow)
        } else {
            Ok(
                MemoryLayout {
                    initial_size: self.initial_size(),
                    byte_capacity: capacity as usize,
                    accessible_bytes: rounded_up(self.initial_size() as int, page) as usize,
                    guard_bytes: guard as usize,
                    mapped_bytes: if capacity + guard == 0 {
                        page_size
                    } else {
                        (capacity + guard) as usize
                    },
                },
            )
        }
    }

    /// Works out the layout for pages of `page_size` bytes.
    pub fn plan(&self, page_size: usize) -> (r: Result<MemoryLayout, String>)
        requires
            is_pow2(page_size as int),
        ensures
            match r {
                Ok(layout) => self.layout(page_size) == Ok::<MemoryLayout, LayoutError>(layout),
                Err(e) => self.layout(page_size) matches Err(error) && e@ == error.text(),
            },
    {
        let initial_size: usize = match self.initial_size_floor {
            Some(floor) => if floor > self.minimum {
                floor
            } else {
                self.minimum
            },
            None => self.minimum,
        };
        if let Some(maximum) = self.maximum {
            if initial_size > maximum {
                let message = with_number(
                    String::new(),
                    "linear memory initial size ",
                    initial_size as u64,
                );
                let message = with_number(message, " exceeds maximum ", maximum as u64);
                assert(message@ =~= LayoutError::ExceedsMaximum { initial_size, maximum }.text());
                return Err(message);
            }
        }
        let mut wanted: usize = match self.reserved_size_in_bytes {
            Some(reserved) => reserved,
            None => match self.maximum {
                Some(maximum) => maximum,
                None => self.minimum,
            },
        };
        if wanted < initial_size {
            wanted = initial_size;
        }
        if let Some(maximum) = self.maximum {
            if wanted > maximum {
                wanted = maximum;
            }
        }
        assert(wanted == self.wanted_capacity());
        let byte_capacity: usize = match round_up(wanted, page_size) {
            Ok(bytes) => bytes,
            Err(e) => return Err(e),
        };
        let guard_bytes: usize = match round_up(self.guard_size_in_bytes, page_size) {
            Ok(bytes) => bytes,
            Err(e) => return Err(e),
        };
        let mapped_bytes: usize = match byte_capacity.checked_add(guard_bytes) {
            Some(bytes) => if bytes == 0 {
                page_size
            } else {
                bytes
            },
            None => return Err("linear memory mapping size overflow".to_owned()),
        };
        // The initial size is at most the wanted capacity, which could be rounded.
        let accessible_bytes: usize = match round_up(initial_size, page_size) {
            Ok(bytes) => bytes,
            Err(e) => return Err(e),
        };
        Ok(
            MemoryLayout {
                initial_size,
                byte_capacity,
                accessible_bytes,
                guard_bytes,
                mapped_bytes,
            },
        )
    }
}

impl MemoryLayout {
    /// What every layout keeps for pages of `page_size` bytes: the initial size lies in
    /// the accessible part, that in the capacity, and that in the mapping; all but the
    /// first are whole pages; the mapping is capacity and guard, and a page if these are empty.
    pub open spec fn wf(self, page_size: usize) -> bool {
        &&& self.initial_size <= self.accessible_bytes <= self.byte_capacity <= self.mapped_bytes
        &&& self.accessible_bytes % page_size == 0
        &&& self.byte_capacity % page_size == 0
        &&& self.guard_bytes % page_size == 0
        &&& self.mapped_bytes % page_size == 0
        &&& self.mapped_bytes == if self.byte_capacity + self.guard_bytes > page_size {
            self.byte_capacity + self.guard_bytes
        } else {
            page_size as int
        }
    }
}

/// A planned layout is sound, starts at the floor and the minimum at least, and starts
/// within the maximum.
pub proof fn layout_is_sound(request: MemoryRequest, page_size: usize)
    requires
        page_size > 0,
        request.layout(page_size) is Ok,
    ensures
        ({
            let layout = request.layout(page_size)->Ok_0;
            &&& layout.wf(page_size)
            &&& layout.initial_size >= request.minimum
            &&& request.initial_size_floor matches Some(floor) ==> layout.initial_size >= floor
            &&& request.maximum matches Some(maximum) ==> layout.initial_size <= maximum
        }),
{
    let page = page_size as int;
    crate::align::rounded_up_is_least_multiple(request.wanted_capacity() as int, page);
    crate::align::rounded_up_is_least_multiple(request.guard_size_in_bytes as int, page);
    crate::align::rounded_up_is_least_multiple(request.initial_size() as int, page);
    crate::align::rounded_up_is_closure(
        request.initial_size() as int,
        request.wanted_capacity() as int,
        page,
    );
    let capacity = rounded_up(request.wanted_capacity() as int, page);
    let guard = rounded_up(request.guard_size_in_bytes as int, page);
    vstd::arithmetic::div_mod::lemma_mod_adds(capacity, guard, page);
    vstd::arithmetic::div_mod::lemma_mod_self_0(page);
    if 0 < capacity + guard < page {
        vstd::arithmetic::div_mod::lemma_small_mod((capacity + guard) as nat, page as nat);
    }
}

/// A memory can be made again in the shape that it has grown to: the same request with a
/// floor of `grown` bytes, where the first memory could grow to that size in place, starts
/// at exactly that size and has the same capacity, guard and mapping.
pub proof fn floor_reproduces_grown_shape(request: MemoryRequest, grown: usize, page_size: usize)
    requires
        is_pow2(page_size as int),
        request.layout(page_size) matches Ok(layout) && request.initial_size() <= grown
            <= layout.byte_capacity,
        request.maximum matches Some(maximum) ==> grown <= maximum,
    ensures
        (MemoryRequest { initial_size_floor: Some(grown), ..request }).layout(page_size) matches Ok(
            again,
        ) && {
            let layout = request.layout(page_size)->Ok_0;
            &&& again.initial_size == grown
            &&& again.byte_capacity == layout.byte_capacity
            &&& again.guard_bytes == layout.guard_bytes
            &&& again.mapped_bytes == layout.mapped_bytes
        },
{
    let page = page_size as int;
    reveal(is_pow2);
    let again = MemoryRequest { initial_size_floor: Some(grown), ..request };
    let wanted = request.wanted_capacity() as int;
    assert(again.initial_size() == grown);
    assert(again.wanted_capacity() == larger(request.wanted_capacity(), grown));
    crate::align::rounded_up_is_least_multiple(wanted, page);
    crate::align::rounded_up_is_least_multiple(again.wanted_capacity() as int, page);
    crate::align::rounded_up_is_closure(wanted, again.wanted_capacity() as int, page);
    crate::align::multiple_can_round_up(rounded_up(wanted, page) as usize, page_size);
}

} // verus!
