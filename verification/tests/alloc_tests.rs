use loader::early::EarlyAllocator;
use loader::early_byte::EarlyByteAllocator;
use loader::early_page::EarlyPageAllocator;
use loader::AllocError;

#[test]
fn byte_allocator_bumps_and_rewinds() {
    let mut a = EarlyByteAllocator::new();
    a.init(0x1000, 0x800);
    assert_eq!(a.total_bytes(), 0x800);
    assert_eq!(a.used_bytes(), 0);
    assert_eq!(a.available_bytes(), 0x800);
    let p1 = a.alloc_bytes(0x10).unwrap();
    assert_eq!(p1, 0x1000);
    let p2 = a.alloc_bytes(0x20).unwrap();
    assert_eq!(p2, 0x1010);
    assert_eq!(a.used_bytes(), 0x30);
    a.dealloc(0x20);
    assert_eq!(a.used_bytes(), 0x10);
    // position rewinds only once everything has been returned
    let p3 = a.alloc_bytes(0x8).unwrap();
    assert_eq!(p3, 0x1030);
    a.dealloc(0x8);
    a.dealloc(0x10);
    assert_eq!(a.used_bytes(), 0);
    let p4 = a.alloc_bytes(0x4).unwrap();
    assert_eq!(p4, 0x1000);
}

#[test]
fn byte_allocator_position_zero_is_no_memory() {
    let mut a = EarlyByteAllocator::new();
    assert_eq!(a.alloc_bytes(1).unwrap_err(), AllocError::NoMemory);
    assert_eq!(a.add_memory(0x1000, 0x100).unwrap_err(), AllocError::NoMemory);
}

#[test]
fn page_allocator_carves_from_the_end() {
    let mut a: EarlyPageAllocator<0x1000> = EarlyPageAllocator::new();
    a.init(0x10000, 0x8000);
    assert_eq!(a.total_pages(), 8);
    assert_eq!(a.used_pages(), 0);
    assert_eq!(a.available_pages(), 8);
    let p1 = a.alloc_pages(1, 0x1000).unwrap();
    assert_eq!(p1, 0x17000);
    let p2 = a.alloc_pages(3, 0x1000).unwrap();
    assert_eq!(p2, 0x14000);
    assert_eq!(a.used_pages(), 4);
    a.dealloc_pages(p2, 3);
    assert_eq!(a.used_pages(), 1);
    a.dealloc_pages(p1, 1);
    assert_eq!(a.used_pages(), 0);
    // the position rewound: the next allocation comes from the end again
    let p3 = a.alloc_pages(1, 0x1000).unwrap();
    assert_eq!(p3, 0x17000);
}

#[test]
fn page_allocator_unaligned_region_is_trimmed() {
    let mut a: EarlyPageAllocator<0x1000> = EarlyPageAllocator::new();
    a.init(0x10800, 0x2800);
    // [0x10800, 0x13000): whole pages are [0x11000, 0x13000)
    assert_eq!(a.total_pages(), 2);
    let p = a.alloc_pages(1, 0x1000).unwrap();
    assert_eq!(p, 0x12000);
}

#[test]
fn page_allocator_rejects_bad_requests() {
    let mut a: EarlyPageAllocator<0x1000> = EarlyPageAllocator::new();
    a.init(0x10000, 0x4000);
    assert_eq!(a.alloc_pages(1, 0x800).unwrap_err(), AllocError::InvalidParam);
    assert_eq!(a.alloc_pages(1, 0x3000).unwrap_err(), AllocError::InvalidParam);
    assert_eq!(a.alloc_pages(0, 0x1000).unwrap_err(), AllocError::InvalidParam);
    assert_eq!(a.alloc_pages(5000000, 0x1000).unwrap_err(), AllocError::NoMemory);
    assert_eq!(a.used_pages(), 0);
}

#[test]
fn page_allocator_raw_position_helpers() {
    let mut a: EarlyPageAllocator<0x1000> = EarlyPageAllocator::new();
    a.init(0x10000, 0x4000);
    a.decrease_pos(2);
    // nothing is allocated, so the reset rewinds to the region end
    a.reset_pos();
    let p = a.alloc_pages(1, 0x1000).unwrap();
    assert_eq!(p, 0x13000);
    // something is allocated: the reset leaves the position alone
    a.reset_pos();
    let q = a.alloc_pages(1, 0x1000).unwrap();
    assert_eq!(q, 0x12000);
}

#[test]
fn page_allocator_fails_on_exhaustion_of_the_region() {
    // a two-page region: asking for four pages must report exhaustion, not
    // hand out pages below the managed region
    let mut a: EarlyPageAllocator<0x1000> = EarlyPageAllocator::new();
    a.init(0x2000, 0x2000);
    assert_eq!(a.total_pages(), 2);
    assert_eq!(a.alloc_pages(4, 0x1000).unwrap_err(), AllocError::NoMemory);
    assert_eq!(a.used_pages(), 0);
    // the whole region is still available and can be carved exactly
    let p = a.alloc_pages(2, 0x1000).unwrap();
    assert_eq!(p, 0x2000);
    assert_eq!(a.used_pages(), 2);
    // now it really is exhausted
    assert_eq!(a.alloc_pages(1, 0x1000).unwrap_err(), AllocError::NoMemory);
}

#[test]
fn page_allocator_honors_the_requested_alignment() {
    let mut a: EarlyPageAllocator<0x1000> = EarlyPageAllocator::new();
    a.init(0, 0x4000);
    // one page, aligned to two pages: the base rounds down to 0x2000
    let p1 = a.alloc_pages(1, 0x2000).unwrap();
    assert_eq!(p1, 0x2000);
    assert_eq!(p1 % 0x2000, 0);
    let p2 = a.alloc_pages(1, 0x2000).unwrap();
    assert_eq!(p2, 0);
    // the alignment waste consumed the region
    assert_eq!(a.alloc_pages(1, 0x1000).unwrap_err(), AllocError::NoMemory);
}

#[test]
fn page_allocator_aligned_request_in_a_tight_region() {
    // three pages at the bottom of the address space: two pages aligned to
    // 0x2000 land at 0, inside the region
    let mut a: EarlyPageAllocator<0x1000> = EarlyPageAllocator::new();
    a.init(0, 0x3000);
    let p = a.alloc_pages(2, 0x2000).unwrap();
    assert_eq!(p, 0);
    assert_eq!(a.used_pages(), 2);
    assert_eq!(a.alloc_pages(1, 0x1000).unwrap_err(), AllocError::NoMemory);
}

#[test]
fn combined_allocator_delegates() {
    let mut a: EarlyAllocator<0x1000> = EarlyAllocator::new();
    a.init(0x10000, 0x4000);
    assert_eq!(a.total_bytes(), 0x4000);
    assert_eq!(a.total_pages(), 4);
    let b = a.alloc_bytes(0x40).unwrap();
    assert_eq!(b, 0x10000);
    let p = a.alloc_pages(2, 0x1000).unwrap();
    assert_eq!(p, 0x12000);
    assert_eq!(a.used_bytes(), 0x40);
    assert_eq!(a.used_pages(), 2);
    assert_eq!(a.available_bytes(), 0x4000 - 0x40);
    assert_eq!(a.available_pages(), 2);
    assert_eq!(a.add_memory(0, 0).unwrap_err(), AllocError::NoMemory);
    a.dealloc(0x40);
    a.dealloc_pages(p, 2);
    assert_eq!(a.used_bytes(), 0);
    assert_eq!(a.used_pages(), 0);
}
