use eryx_host::layout::{MemoryLayout, MemoryRequest};

const PAGE: usize = 4096;

fn request(minimum: usize) -> MemoryRequest {
    MemoryRequest {
        minimum,
        initial_size_floor: None,
        maximum: None,
        reserved_size_in_bytes: None,
        guard_size_in_bytes: 0,
    }
}

#[test]
fn sizes_are_in_whole_pages() {
    let layout = MemoryRequest {
        reserved_size_in_bytes: Some(10_000),
        guard_size_in_bytes: 1,
        ..request(5_000)
    }
    .plan(PAGE);
    assert_eq!(
        layout,
        Ok(MemoryLayout {
            initial_size: 5_000,
            byte_capacity: 12_288,
            accessible_bytes: 8_192,
            guard_bytes: 4_096,
            mapped_bytes: 16_384,
        })
    );
}

#[test]
fn capacity_is_reserved_then_maximum_then_minimum() {
    let capacity = |r: MemoryRequest| r.plan(PAGE).unwrap().byte_capacity;
    assert_eq!(capacity(request(PAGE)), PAGE);
    assert_eq!(capacity(MemoryRequest { maximum: Some(3 * PAGE), ..request(PAGE) }), 3 * PAGE);
    assert_eq!(
        capacity(MemoryRequest {
            maximum: Some(3 * PAGE),
            reserved_size_in_bytes: Some(2 * PAGE),
            ..request(PAGE)
        }),
        2 * PAGE
    );
    assert_eq!(
        capacity(MemoryRequest {
            maximum: Some(3 * PAGE),
            reserved_size_in_bytes: Some(9 * PAGE),
            ..request(PAGE)
        }),
        3 * PAGE
    );
    assert_eq!(
        capacity(MemoryRequest { reserved_size_in_bytes: Some(0), ..request(2 * PAGE) }),
        2 * PAGE
    );
}

#[test]
fn the_floor_only_raises_the_initial_size() {
    let initial = |floor| {
        MemoryRequest { initial_size_floor: Some(floor), ..request(8192) }.plan(PAGE).unwrap().initial_size
    };
    assert_eq!(initial(100), 8192);
    assert_eq!(initial(10_000), 10_000);
}

#[test]
fn a_floor_over_the_maximum_is_refused() {
    let r = MemoryRequest { initial_size_floor: Some(9000), maximum: Some(8192), ..request(4096) };
    assert_eq!(
        r.plan(PAGE),
        Err("linear memory initial size 9000 exceeds maximum 8192".to_string())
    );
}

#[test]
fn sizes_at_the_end_of_the_range_are_refused() {
    assert_eq!(request(usize::MAX).plan(PAGE), Err("page alignment overflow".to_string()));
    assert_eq!(
        MemoryRequest { guard_size_in_bytes: usize::MAX, ..request(0) }.plan(PAGE),
        Err("page alignment overflow".to_string())
    );
    assert_eq!(
        MemoryRequest { guard_size_in_bytes: PAGE, ..request(usize::MAX - 4095) }.plan(PAGE),
        Err("linear memory mapping size overflow".to_string())
    );
}

#[test]
fn an_empty_memory_takes_a_page() {
    assert_eq!(request(0).plan(PAGE).unwrap().mapped_bytes, PAGE);
}

#[test]
fn a_floor_reproduces_a_grown_memory() {
    let first = MemoryRequest {
        maximum: Some(16_384),
        reserved_size_in_bytes: Some(16_384),
        guard_size_in_bytes: 4096,
        ..request(4096)
    };
    let layout = first.plan(PAGE).unwrap();
    let again = MemoryRequest { initial_size_floor: Some(12_000), ..first }.plan(PAGE).unwrap();
    assert_eq!(again.initial_size, 12_000);
    assert_eq!(again.byte_capacity, layout.byte_capacity);
    assert_eq!(again.mapped_bytes, layout.mapped_bytes);
}
