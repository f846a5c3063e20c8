//! What making, growing and dropping a linear memory come to.

use vstd::arithmetic::power2::is_pow2;
use vstd::prelude::*;

use crate::align::{
    is_power_of_two, page_size, round_up, rounded_up, rounded_up_is_least_multiple,
};
use crate::growth::GrowRequest;
use crate::laws::tracker::{allocated, deallocated, has_seen_nothing, resized};
use crate::layout::{MemoryLayout, MemoryRequest};
use crate::memory::{
    FailedMemory, MappedMemory, TrackedLinearMemory, TrackingMemoryCreator, Unmapping,
};
use crate::text::decimal;
use crate::tracker::{HostMemoryTracker, RegionRecord};

verus! {

/// `bytes` is `size` in whole pages: the least number of pages that hold it.
pub open spec fn in_whole_pages(bytes: int, size: int, page: int) -> bool {
    bytes % page == 0 && size <= bytes < size + page
}

/// No two numbers are the same size in whole pages.
pub proof fn whole_pages_are_unique(a: int, b: int, size: int, page: int)
    requires
        0 < page,
        in_whole_pages(a, size, page),
        in_whole_pages(b, size, page),
    ensures
        a == b,
{
    vstd::arithmetic::div_mod::lemma_fundamental_div_mod(a, page);
    vstd::arithmetic::div_mod::lemma_fundamental_div_mod(b, page);
    assert(a / page == b / page) by (nonlinear_arith)
        requires
            0 < page,
            a == page * (a / page),
            b == page * (b / page),
            -page < a - b < page,
    ;
}

/// The rounded value is the value in whole pages.
proof fn lemma_rounded_up(value: int, page: int)
    requires
        0 <= value,
        0 < page,
    ensures
        in_whole_pages(rounded_up(value, page), value, page),
{
    rounded_up_is_least_multiple(value, page);
}

/// Rounding gives the value in whole pages, wherever adding all but one byte of a page to it stays
/// in range.
pub proof fn rounding_gives_whole_pages(value: usize, align: usize, r: Result<usize, String>)
    requires
        is_pow2(align as int),
        call_ensures(round_up, (value, align), r),
    ensures
        r is Ok <==> value + align - 1 <= usize::MAX,
        r matches Ok(bytes) ==> in_whole_pages(bytes as int, value as int, align as int),
        r matches Err(e) ==> e@ == "page alignment overflow"@,
{
    reveal(is_pow2);
    lemma_rounded_up(value as int, align as int);
}

/// A number is told to be a power of two exactly if it is one: 1 is, 0 and other odd numbers are
/// not, and an even number is if its half is.
pub proof fn powers_of_two_are_told(n: usize, half: usize, r: bool, of_half: bool)
    requires
        call_ensures(is_power_of_two, (n,), r),
        call_ensures(is_power_of_two, (half,), of_half),
        n == 2 * half || n == 2 * half + 1,
    ensures
        r <==> n == 1 || (n > 0 && n == 2 * half && of_half),
        r <==> is_pow2(n as int),
{
    reveal(is_pow2);
}

/// A page size is taken as the system gives it, if it is positive and fits.
pub proof fn page_size_is_that_of_the_system(raw: i64, os_error: &str, r: Result<usize, String>)
    requires
        call_ensures(page_size, (raw, os_error), r),
    ensures
        r is Ok <==> 0 < raw <= usize::MAX,
        r matches Ok(size) ==> size == raw,
        raw <= 0 ==> (r matches Err(e) && e@ == "sysconf(_SC_PAGESIZE) failed: "@ + os_error@),
        raw > usize::MAX ==> (r matches Err(e) && e@ == "page size does not fit usize"@),
{
}

/// `size` is what a memory starts at: no less than the declared minimum and the floor, and one of
/// them.
pub open spec fn is_initial_size(request: MemoryRequest, size: int) -> bool {
    &&& size >= request.minimum
    &&& request.initial_size_floor matches Some(floor) ==> size >= floor
    &&& size == request.minimum || (request.initial_size_floor matches Some(floor) && size == floor)
}

/// `size` is what a memory that starts at `initial` is to be able to grow to, before rounding. All
/// that is reserved, as far as the maximum allows; without a reservation the whole maximum;
/// without either, what it starts at. Never less than it starts at.
pub open spec fn is_wanted_capacity(request: MemoryRequest, initial: int, size: int) -> bool {
    &&& size >= initial
    &&& request.maximum matches Some(maximum) ==> size <= maximum
    &&& match (request.reserved_size_in_bytes, request.maximum) {
        (Some(reserved), Some(maximum)) => (size >= reserved || size == maximum) && (size
            <= reserved || size == initial),
        (Some(reserved), None) => size >= reserved && (size == reserved || size == initial),
        (None, Some(maximum)) => size == maximum,
        (None, None) => size == initial,
    }
}

/// `layout` is what `request` asks for, in pages of `page` bytes: it starts at its initial size, of
/// which the whole pages are accessible; it can grow to its wanted capacity in whole pages; after
/// that comes the whole guard, in whole pages; all of it is mapped, and a page if it is nothing.
pub open spec fn grants(request: MemoryRequest, page: int, layout: MemoryLayout) -> bool {
    &&& is_initial_size(request, layout.initial_size as int)
    &&& request.maximum matches Some(maximum) ==> layout.initial_size <= maximum
    &&& in_whole_pages(layout.accessible_bytes as int, layout.initial_size as int, page)
    &&& layout.accessible_bytes <= layout.byte_capacity
    &&& forall|wanted: int| #[trigger]
        is_wanted_capacity(request, layout.initial_size as int, wanted) ==> in_whole_pages(
            layout.byte_capacity as int,
            wanted,
            page,
        )
    &&& exists|wanted: int| #[trigger]
        is_wanted_capacity(request, layout.initial_size as int, wanted)
    &&& in_whole_pages(layout.guard_bytes as int, request.guard_size_in_bytes as int, page)
    &&& layout.byte_capacity + layout.guard_bytes > 0 ==> layout.mapped_bytes
        == layout.byte_capacity + layout.guard_bytes
    &&& layout.byte_capacity + layout.guard_bytes == 0 ==> layout.mapped_bytes == page
}

/// `request` is refused with `message`: it would start above its maximum; or a size leaves the
/// address range when it is rounded; or capacity and guard leave it together.
pub open spec fn denies(request: MemoryRequest, page: int, message: Seq<char>) -> bool {
    exists|initial: int, wanted: int, capacity: int, guard: int| #[trigger]
        denies_for(request, page, initial, wanted, capacity, guard, message)
}

/// `request` is refused with `message`, where these are the sizes that it comes to.
pub open spec fn denies_for(
    request: MemoryRequest,
    page: int,
    initial: int,
    wanted: int,
    capacity: int,
    guard: int,
    message: Seq<char>,
) -> bool {
    &&& is_initial_size(request, initial)
    &&& if request.maximum matches Some(maximum) && initial > maximum {
        message == "linear memory initial size "@ + decimal(initial as nat) + " exceeds maximum "@
            + decimal(request.maximum->0 as nat)
    } else {
        &&& is_wanted_capacity(request, initial, wanted)
        &&& in_whole_pages(capacity, wanted, page)
        &&& in_whole_pages(guard, request.guard_size_in_bytes as int, page)
        &&& if wanted + page - 1 > usize::MAX || request.guard_size_in_bytes + page - 1
            > usize::MAX {
            message == "page alignment overflow"@
        } else {
            capacity + guard > usize::MAX && message == "linear memory mapping size overflow"@
        }
    }
}

/// What the layout of a request comes to.
proof fn lemma_layout(request: MemoryRequest, page_size: usize)
    requires
        is_pow2(page_size as int),
    ensures
        match request.layout(page_size) {
            Ok(layout) => grants(request, page_size as int, layout),
            Err(error) => denies(request, page_size as int, error.text()),
        },
{
    reveal(is_pow2);
    let page = page_size as int;
    let initial = request.initial_size() as int;
    let wanted = request.wanted_capacity() as int;
    let capacity = rounded_up(wanted, page);
    let guard = rounded_up(request.guard_size_in_bytes as int, page);
    lemma_rounded_up(initial, page);
    lemma_rounded_up(wanted, page);
    lemma_rounded_up(request.guard_size_in_bytes as int, page);
    assert(is_initial_size(request, initial));
    if !request.starts_too_large() {
        assert(is_wanted_capacity(request, initial, wanted));
        assert(forall|other: int| #[trigger]
            is_wanted_capacity(request, initial, other) ==> other == wanted);
        crate::align::rounded_up_is_closure(initial, wanted, page);
    }
    if let Err(error) = request.layout(page_size) {
        assert(denies_for(request, page, initial, wanted, capacity, guard, error.text()));
    }
}

/// A plan grants what was asked for, or says why it cannot.
pub proof fn plan_grants_the_request(
    request: MemoryRequest,
    page_size: usize,
    r: Result<MemoryLayout, String>,
)
    requires
        is_pow2(page_size as int),
        call_ensures(MemoryRequest::plan, (&request, page_size), r),
    ensures
        r matches Ok(layout) ==> grants(request, page_size as int, layout),
        r matches Err(e) ==> denies(request, page_size as int, e@),
{
    lemma_layout(request, page_size);
}

/// In particular the whole guard that was asked for is mapped behind the capacity, and no page
/// more.
pub proof fn whole_guard_is_mapped(
    request: MemoryRequest,
    page_size: usize,
    r: Result<MemoryLayout, String>,
)
    requires
        is_pow2(page_size as int),
        call_ensures(MemoryRequest::plan, (&request, page_size), r),
    ensures
        r matches Ok(layout) ==> {
            &&& layout.mapped_bytes >= layout.byte_capacity + request.guard_size_in_bytes
            &&& layout.guard_bytes as int % page_size as int == 0
            &&& forall|bytes: int|
                bytes >= request.guard_size_in_bytes && #[trigger] (bytes % page_size as int) == 0
                    ==> layout.guard_bytes <= bytes
        },
{
    reveal(is_pow2);
    rounded_up_is_least_multiple(request.guard_size_in_bytes as int, page_size as int);
}

/// A creator grants what a module asks for, starting no lower than the creator's floor. Where the
/// page size is not known it says what is known of that.
pub proof fn new_memory_grants_the_request(
    creator: TrackingMemoryCreator,
    minimum: usize,
    maximum: Option<usize>,
    reserved_size_in_bytes: Option<usize>,
    guard_size_in_bytes: usize,
    page_size: Result<usize, String>,
    r: Result<MemoryLayout, String>,
)
    requires
        page_size matches Ok(page) ==> is_pow2(page as int),
        call_ensures(
            TrackingMemoryCreator::new_memory,
            (
                &creator,
                minimum,
                maximum,
                reserved_size_in_bytes,
                guard_size_in_bytes,
                page_size,
            ),
            r,
        ),
    ensures
        ({
            let request = MemoryRequest {
                minimum,
                initial_size_floor: creator@.initial_size_floor,
                maximum,
                reserved_size_in_bytes,
                guard_size_in_bytes,
            };
            match page_size {
                Ok(page) => match r {
                    Ok(layout) => grants(request, page as int, layout),
                    Err(e) => denies(request, page as int, e@),
                },
                Err(e) => r == Err::<MemoryLayout, String>(e),
            }
        }),
{
    let request = MemoryRequest {
        minimum,
        initial_size_floor: creator@.initial_size_floor,
        maximum,
        reserved_size_in_bytes,
        guard_size_in_bytes,
    };
    if let Ok(page) = page_size {
        lemma_layout(request, page);
    }
}

/// New creators have seen no memory, and have the floor that they were given, if any. Their tracker
/// is the one that they record in.
pub proof fn new_creators_have_their_floor(
    plain: TrackingMemoryCreator,
    standard: TrackingMemoryCreator,
    floored: TrackingMemoryCreator,
    floor: usize,
    tracker: &HostMemoryTracker,
)
    requires
        call_ensures(TrackingMemoryCreator::new, (), plain),
        call_ensures(TrackingMemoryCreator::default, (), standard),
        call_ensures(TrackingMemoryCreator::new_with_initial_size_floor, (floor,), floored),
        call_ensures(TrackingMemoryCreator::tracker, (&floored,), tracker),
    ensures
        plain@.initial_size_floor is None && has_seen_nothing(plain@.tracker),
        standard@.initial_size_floor is None && has_seen_nothing(standard@.tracker),
        floored@.initial_size_floor == Some(floor) && has_seen_nothing(floored@.tracker),
        tracker@ == floored@.tracker,
{
}

/// The tracker that a creator lends out is its own: what is recorded in it is recorded in the
/// creator's, and the floor stays.
pub proof fn lent_tracker_is_that_of_the_creator(
    creator: &mut TrackingMemoryCreator,
    lent: &mut HostMemoryTracker,
)
    requires
        call_ensures(TrackingMemoryCreator::tracker_mut, (creator,), lent),
    ensures
        old(lent)@ == old(creator)@.tracker,
        final(creator)@.tracker == final(lent)@,
        final(creator)@.initial_size_floor == old(creator)@.initial_size_floor,
{
}

/// A mapping is taken at the address that the host gives, for the layout that it was asked for;
/// a failed one is reported with the bytes that were asked for.
pub proof fn mapping_keeps_address_and_layout(
    layout: MemoryLayout,
    mapping: Result<usize, String>,
    r: Result<MappedMemory, String>,
)
    requires
        call_ensures(MemoryLayout::mapped, (layout, mapping), r),
    ensures
        r is Ok <==> (mapping matches Ok(address) && address != 0),
        r matches Ok(mapped) ==> mapping == Ok::<usize, String>(mapped.base_addr) && mapped.layout
            == layout,
        mapping matches Err(os_error) ==> (r matches Err(e) && e@ == "mmap failed for "@ + decimal(
            layout.mapped_bytes as nat,
        ) + " bytes: "@ + os_error@),
        mapping == Ok::<usize, String>(0) ==> (r matches Err(e) && e@ == "mmap returned null"@),
{
}

/// The bytes that the host makes accessible: `before`, and `len` bytes from `base` if it is asked
/// for any.
pub open spec fn protects(
    before: spec_fn(int) -> bool,
    base: int,
    len: Option<usize>,
) -> spec_fn(int) -> bool {
    |a: int| before(a) || (len matches Some(len) && base <= a < base + len)
}

/// Finishing a memory makes it live at its mapping with the sizes of its layout, unless the host
/// was asked for protection and could not give it: then nothing is recorded, and the whole
/// mapping is to be given back.
pub proof fn finished_memory_is_live(
    creator: &mut TrackingMemoryCreator,
    mapped: MappedMemory,
    asked: Option<usize>,
    protection: Result<(), String>,
    r: Result<TrackedLinearMemory, FailedMemory>,
)
    requires
        old(creator)@.tracker.wf(),
        call_ensures(MappedMemory::protection, (&mapped,), asked),
        !(asked is Some && protection is Err) ==> {
            let before = old(creator)@.tracker;
            &&& before.next_id < u64::MAX
            &&& before.stats.mapped_bytes + mapped.layout.mapped_bytes <= usize::MAX
            &&& before.stats.accessible_bytes + mapped.layout.accessible_bytes <= usize::MAX
        },
        call_ensures(TrackingMemoryCreator::finish_memory, (creator, mapped, protection), r),
    ensures
        r is Err <==> asked is Some && protection is Err,
        final(creator)@.initial_size_floor == old(creator)@.initial_size_floor,
        r matches Ok(memory) ==> {
            &&& memory@.base_addr == mapped.base_addr
            &&& memory@.mapped_bytes == mapped.layout.mapped_bytes
            &&& allocated(
                old(creator)@.tracker,
                final(creator)@.tracker,
                memory@.id,
                mapped.base_addr,
                mapped.layout.initial_size,
                mapped.layout.byte_capacity,
                mapped.layout.accessible_bytes,
                mapped.layout.mapped_bytes,
                mapped.layout.guard_bytes,
            )
        },
        r matches Err(failed) ==> {
            &&& final(creator)@.tracker == old(creator)@.tracker
            &&& failed.unmapping.base_addr == mapped.base_addr
            &&& failed.unmapping.mapped_bytes == mapped.layout.mapped_bytes
            &&& failed.message@ == "mprotect failed: "@ + protection->Err_0@
        },
{
}

/// A host that makes accessible what it is asked to has every byte that the new memory counts as
/// accessible, and no other, made so.
pub proof fn new_memory_is_accessible(
    mapped: MappedMemory,
    asked: Option<usize>,
    before: spec_fn(int) -> bool,
    a: int,
)
    requires
        call_ensures(MappedMemory::protection, (&mapped,), asked),
    ensures
        protects(before, mapped.base_addr as int, asked)(a) <==> before(a) || mapped.base_addr <= a
            < mapped.base_addr + mapped.layout.accessible_bytes,
        asked matches Some(len) ==> len > 0,
{
}

/// A memory has the id that it was given, lies at its base, and has the size and capacity that the
/// tracker records for its id.
pub proof fn memory_has_its_recorded_sizes(
    memory: TrackedLinearMemory,
    tracker: &HostMemoryTracker,
    id: u64,
    byte_size: usize,
    byte_capacity: usize,
    base: usize,
)
    requires
        memory@.is_live_in(tracker@),
        call_ensures(TrackedLinearMemory::id, (&memory,), id),
        call_ensures(TrackedLinearMemory::byte_size, (&memory, tracker), byte_size),
        call_ensures(TrackedLinearMemory::byte_capacity, (&memory, tracker), byte_capacity),
        call_ensures(TrackedLinearMemory::as_ptr, (&memory,), base),
    ensures
        id == memory@.id,
        byte_size == tracker@.regions[memory@.id].byte_size,
        byte_capacity == tracker@.regions[memory@.id].byte_capacity,
        base == memory@.base_addr,
{
}

/// `request` grows the region with `record` to `new_size`. It names the region and its place. What
/// it makes accessible holds the new size and all that was accessible before: nothing more than
/// before if that is enough, and otherwise the new size in whole pages. The host is to protect
/// pages exactly if there are more than before.
pub open spec fn grows(
    request: GrowRequest,
    id: u64,
    record: RegionRecord,
    new_size: usize,
    page: int,
) -> bool {
    &&& request.id == id
    &&& request.base_addr == record.base_addr
    &&& request.new_size == new_size
    &&& request.accessible_bytes >= record.accessible_bytes
    &&& request.accessible_bytes >= new_size
    &&& request.accessible_bytes == record.accessible_bytes || in_whole_pages(
        request.accessible_bytes as int,
        new_size as int,
        page,
    )
    &&& request.protect <==> request.accessible_bytes > record.accessible_bytes
}

/// The region with `record` cannot grow to `new_size`, for the reason in `message`.
pub open spec fn cannot_grow(
    record: RegionRecord,
    new_size: usize,
    page_size: Result<usize, String>,
    message: Seq<char>,
) -> bool {
    if new_size > record.byte_capacity {
        message == "linear memory grow to "@ + decimal(new_size as nat)
            + " exceeds reserved capacity "@ + decimal(record.byte_capacity as nat)
    } else {
        match page_size {
            Err(e) => message == e@,
            Ok(page) => new_size + page - 1 > usize::MAX && message == "page alignment overflow"@,
        }
    }
}

/// `r` answers a growth of region `id` to `new_size`.
pub open spec fn answers_growth(
    r: Result<GrowRequest, String>,
    id: u64,
    record: RegionRecord,
    new_size: usize,
    page_size: Result<usize, String>,
) -> bool {
    match r {
        Ok(request) => {
            &&& new_size <= record.byte_capacity
            &&& page_size matches Ok(page) && new_size + page - 1 <= usize::MAX && grows(
                request,
                id,
                record,
                new_size,
                page as int,
            )
        },
        Err(e) => cannot_grow(record, new_size, page_size, e@),
    }
}

/// A region grows to any size up to its capacity, and to no other; what it takes is worked out
/// from its record. A memory grows as its region does.
pub proof fn growth_is_answered_from_the_record(
    tracker: &HostMemoryTracker,
    memory: TrackedLinearMemory,
    new_size: usize,
    page_size: Result<usize, String>,
    by_record: Result<GrowRequest, String>,
    by_memory: Result<GrowRequest, String>,
)
    requires
        memory@.is_live_in(tracker@),
        page_size matches Ok(page) ==> is_pow2(page as int),
        call_ensures(
            HostMemoryTracker::grow_region_record,
            (tracker, memory@.id, new_size, page_size),
            by_record,
        ),
        call_ensures(
            TrackedLinearMemory::grow_to,
            (&memory, tracker, new_size, page_size),
            by_memory,
        ),
    ensures
        answers_growth(
            by_record,
            memory@.id,
            tracker@.regions[memory@.id],
            new_size,
            page_size,
        ),
        answers_growth(
            by_memory,
            memory@.id,
            tracker@.regions[memory@.id],
            new_size,
            page_size,
        ),
{
    reveal(is_pow2);
    if let Ok(page) = page_size {
        lemma_rounded_up(new_size as int, page as int);
    }
}

/// Completing a growth records the size and the accessible bytes of the request and counts one
/// growth, unless the host was asked for protection and could not give it: then nothing changes.
pub proof fn completed_growth_is_recorded(
    tracker: &mut HostMemoryTracker,
    request: GrowRequest,
    protection: Result<(), String>,
    r: Result<(), String>,
)
    requires
        old(tracker)@.wf(),
        old(tracker)@.regions.contains_key(request.id),
        !(request.protect && protection is Err) ==> old(tracker)@.stats.accessible_bytes
            + request.accessible_bytes - old(tracker)@.regions[request.id].accessible_bytes
            <= usize::MAX,
        call_ensures(HostMemoryTracker::complete_growth, (tracker, request, protection), r),
    ensures
        r is Err <==> request.protect && protection is Err,
        r is Ok ==> {
            &&& resized(
                old(tracker)@,
                final(tracker)@,
                request.id,
                request.new_size,
                request.accessible_bytes,
            )
            &&& final(tracker)@.stats.grow_count as int == (old(tracker)@.stats.grow_count + 1)
                % 0x1_0000_0000_0000_0000
        },
        r matches Err(e) ==> final(tracker)@ == old(tracker)@ && e@ == "mprotect failed: "@
            + protection->Err_0@,
{
}

/// What a growth asks the host to protect.
pub open spec fn asked_for(request: GrowRequest) -> Option<usize> {
    if request.protect {
        Some(request.accessible_bytes)
    } else {
        None
    }
}

/// If every byte that a region counts as accessible is so, and the host makes accessible what a
/// growth asks it to, then after the growth every byte that the region counts as accessible is so
/// again, and among them every byte of the new size. Nothing that was accessible is lost, and
/// nothing beyond the count is made accessible.
pub proof fn grown_memory_is_accessible(
    tracker: &mut HostMemoryTracker,
    id: u64,
    new_size: usize,
    page_size: Result<usize, String>,
    request: GrowRequest,
    protection: Result<(), String>,
    r: Result<(), String>,
    before: spec_fn(int) -> bool,
    a: int,
)
    requires
        old(tracker)@.wf(),
        old(tracker)@.regions.contains_key(id),
        page_size matches Ok(page) ==> is_pow2(page as int),
        call_ensures(
            HostMemoryTracker::grow_region_record,
            (&*old(tracker), id, new_size, page_size),
            Ok(request),
        ),
        old(tracker)@.stats.accessible_bytes + request.accessible_bytes
            - old(tracker)@.regions[id].accessible_bytes <= usize::MAX,
        call_ensures(HostMemoryTracker::complete_growth, (tracker, request, protection), r),
        r is Ok,
        old(tracker)@.regions[id].base_addr <= a < old(tracker)@.regions[id].base_addr
            + old(tracker)@.regions[id].accessible_bytes ==> before(a),
    ensures
        ({
            let record = final(tracker)@.regions[id];
            let after = protects(before, request.base_addr as int, asked_for(request));
            &&& record.base_addr <= a < record.base_addr + record.accessible_bytes ==> after(a)
            &&& record.byte_size == new_size
            &&& new_size <= record.accessible_bytes
            &&& before(a) ==> after(a)
            &&& after(a) && !before(a) ==> record.base_addr <= a < record.base_addr
                + record.accessible_bytes
        }),
{
    reveal(is_pow2);
    if let Ok(page) = page_size {
        lemma_rounded_up(new_size as int, page as int);
    }
}

/// A memory that ends is no longer live, and gives back the whole of its mapping.
pub proof fn released_memory_gives_its_mapping_back(
    memory: TrackedLinearMemory,
    tracker: &mut HostMemoryTracker,
    r: Unmapping,
)
    requires
        old(tracker)@.wf(),
        memory@.is_live_in(old(tracker)@),
        call_ensures(TrackedLinearMemory::release, (memory, tracker), r),
    ensures
        deallocated(old(tracker)@, final(tracker)@, memory@.id),
        r.base_addr == memory@.base_addr,
        r.mapped_bytes == memory@.mapped_bytes,
        r.base_addr == old(tracker)@.regions[memory@.id].base_addr,
        r.mapped_bytes == old(tracker)@.regions[memory@.id].mapped_bytes,
{
    crate::tracker::deallocation_keeps_wf(old(tracker)@, memory@.id);
}

} // verus!
