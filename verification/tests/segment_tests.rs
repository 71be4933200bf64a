use loader::early_page::EarlyPageAllocator;
use loader::region::load_image;
use loader::region::load_segment;
use loader::region::page_count;
use loader::segment::parse_load_segments;
use loader::LoaderError;

struct Phdr {
    p_type: u32,
    p_offset: u64,
    p_vaddr: u64,
    p_filesz: u64,
    p_memsz: u64,
}

/// Builds a minimal little-endian 64-bit executable container: the file
/// header, the program headers, then the supplied tail bytes.
fn build_container(phdrs: &[Phdr], tail: &[u8]) -> Vec<u8> {
    let mut out: Vec<u8> = Vec::new();
    out.extend_from_slice(&[0x7f, b'E', b'L', b'F', 2, 1, 1, 0, 0, 0, 0, 0, 0, 0, 0, 0]);
    out.extend_from_slice(&2u16.to_le_bytes()); // e_type: executable
    out.extend_from_slice(&0x3eu16.to_le_bytes()); // e_machine
    out.extend_from_slice(&1u32.to_le_bytes()); // e_version
    out.extend_from_slice(&0u64.to_le_bytes()); // e_entry
    out.extend_from_slice(&64u64.to_le_bytes()); // e_phoff
    out.extend_from_slice(&0u64.to_le_bytes()); // e_shoff
    out.extend_from_slice(&0u32.to_le_bytes()); // e_flags
    out.extend_from_slice(&64u16.to_le_bytes()); // e_ehsize
    out.extend_from_slice(&56u16.to_le_bytes()); // e_phentsize
    out.extend_from_slice(&(phdrs.len() as u16).to_le_bytes()); // e_phnum
    out.extend_from_slice(&0u16.to_le_bytes()); // e_shentsize
    out.extend_from_slice(&0u16.to_le_bytes()); // e_shnum
    out.extend_from_slice(&0u16.to_le_bytes()); // e_shstrndx
    assert_eq!(out.len(), 64);
    for p in phdrs {
        out.extend_from_slice(&p.p_type.to_le_bytes());
        out.extend_from_slice(&0u32.to_le_bytes()); // p_flags
        out.extend_from_slice(&p.p_offset.to_le_bytes());
        out.extend_from_slice(&p.p_vaddr.to_le_bytes());
        out.extend_from_slice(&p.p_vaddr.to_le_bytes()); // p_paddr
        out.extend_from_slice(&p.p_filesz.to_le_bytes());
        out.extend_from_slice(&p.p_memsz.to_le_bytes());
        out.extend_from_slice(&0x1000u64.to_le_bytes()); // p_align
    }
    out.extend_from_slice(tail);
    out
}

#[test]
fn parse_keeps_loadable_entries_in_file_order() {
    let phdrs = vec![
        Phdr { p_type: 1, p_offset: 0xe8, p_vaddr: 0x40_1000, p_filesz: 4, p_memsz: 16 },
        Phdr { p_type: 4, p_offset: 0, p_vaddr: 0, p_filesz: 0, p_memsz: 0 }, // note entry: ignored
        Phdr { p_type: 1, p_offset: 0xec, p_vaddr: 0x40_0000, p_filesz: 2, p_memsz: 2 },
    ];
    let image = build_container(&phdrs, b"\xde\xad\xbe\xef\x55\xaa");
    let segs = parse_load_segments(&image).unwrap();
    assert_eq!(segs.len(), 2);
    assert_eq!(segs[0].file_offset, 0xe8);
    assert_eq!(segs[0].virtual_address, 0x40_1000);
    assert_eq!(segs[0].file_size, 4);
    assert_eq!(segs[0].memory_size, 16);
    // file order is kept even though the second entry's address is lower
    assert_eq!(segs[1].virtual_address, 0x40_0000);
}

#[test]
fn garbage_is_a_malformed_image() {
    let image: Vec<u8> = vec![1, 2, 3, 4, 5, 6, 7, 8];
    assert_eq!(parse_load_segments(&image).unwrap_err(), LoaderError::MalformedImage);
}

#[test]
fn oversized_file_range_is_malformed() {
    // the entry claims more file bytes than the container holds
    let phdrs = vec![Phdr { p_type: 1, p_offset: 0x78, p_vaddr: 0x1000, p_filesz: 99, p_memsz: 99 }];
    let image = build_container(&phdrs, b"xy");
    assert_eq!(parse_load_segments(&image).unwrap_err(), LoaderError::MalformedImage);
}

#[test]
fn memory_smaller_than_file_is_malformed() {
    let phdrs = vec![Phdr { p_type: 1, p_offset: 0x78, p_vaddr: 0x1000, p_filesz: 2, p_memsz: 1 }];
    let image = build_container(&phdrs, b"xy");
    assert_eq!(parse_load_segments(&image).unwrap_err(), LoaderError::MalformedImage);
}

#[test]
fn staged_segment_copies_then_zero_fills() {
    // memory_size > file_size: bytes [file_size, memory_size) must be zero,
    // bytes [0, file_size) must equal the source bytes exactly
    let phdrs = vec![
        Phdr { p_type: 1, p_offset: 0x78, p_vaddr: 0x40_0123, p_filesz: 4, p_memsz: 0x20 },
    ];
    let image = build_container(&phdrs, b"\x11\x22\x33\x44");
    let segs = parse_load_segments(&image).unwrap();
    let seg = segs[0];
    assert_eq!(page_count(&seg), 1);

    let mut alloc: EarlyPageAllocator<0x1000> = EarlyPageAllocator::new();
    alloc.init(0x8_0000, 0x10_000);
    let m = load_segment(&image, &seg, &mut alloc).unwrap();
    assert_eq!(m.virtual_base, 0x40_0000);
    assert_eq!(m.page_count, 1);
    assert_eq!(m.bytes.len(), 0x1000);
    assert_eq!(m.physical_base, 0x9_0000 - 0x1000);
    let off = seg.virtual_address - m.virtual_base;
    assert_eq!(&m.bytes[off..off + 4], b"\x11\x22\x33\x44");
    for j in 4..0x20 {
        assert_eq!(m.bytes[off + j], 0, "zero-extended byte {j}");
    }
    for j in 0..off {
        assert_eq!(m.bytes[j], 0);
    }
    for j in off + 0x20..0x1000 {
        assert_eq!(m.bytes[j], 0);
    }
}

#[test]
fn segment_spanning_pages_gets_all_of_them() {
    let phdrs = vec![
        Phdr { p_type: 1, p_offset: 0x78, p_vaddr: 0x40_0ffe, p_filesz: 4, p_memsz: 4 },
    ];
    let image = build_container(&phdrs, b"abcd");
    let segs = parse_load_segments(&image).unwrap();
    assert_eq!(page_count(&segs[0]), 2);
}

#[test]
fn whole_image_load_and_exhaustion() {
    let phdrs = vec![
        Phdr { p_type: 1, p_offset: 0xb0, p_vaddr: 0x40_0000, p_filesz: 2, p_memsz: 0x1000 },
        Phdr { p_type: 1, p_offset: 0xb2, p_vaddr: 0x40_1000, p_filesz: 2, p_memsz: 0x2000 },
    ];
    let image = build_container(&phdrs, b"hiyo");
    let mut alloc: EarlyPageAllocator<0x1000> = EarlyPageAllocator::new();
    alloc.init(0x8_0000, 0x10_000);
    let maps = load_image(&image, &mut alloc).unwrap();
    assert_eq!(maps.len(), 2);
    assert_eq!(maps[0].bytes[0], b'h');
    assert_eq!(maps[0].bytes[1], b'i');
    assert_eq!(maps[1].bytes[0], b'y');
    assert_eq!(maps[1].bytes[1], b'o');
    assert_eq!(alloc.used_pages(), 3);

    // an exhausted allocator (the position runs out) aborts the whole load
    let mut small: EarlyPageAllocator<0x1000> = EarlyPageAllocator::new();
    small.init(0, 0x2000);
    assert_eq!(load_image(&image, &mut small).unwrap_err(), LoaderError::OutOfMemory);
}
