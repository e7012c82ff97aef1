use skylift::error::LoadError;
use skylift::layout::PhysicalRange;
use skylift::loader::parse;
use skylift::mem::MemoryManager;

const KVO: u64 = 0xFFFF_FFFF_8000_0000;
const PAGE: u64 = 0x1000;

fn put16(b: &mut Vec<u8>, off: usize, v: u16) {
    b[off..off + 2].copy_from_slice(&v.to_le_bytes());
}

fn put32(b: &mut Vec<u8>, off: usize, v: u32) {
    b[off..off + 4].copy_from_slice(&v.to_le_bytes());
}

fn put64(b: &mut Vec<u8>, off: usize, v: u64) {
    b[off..off + 8].copy_from_slice(&v.to_le_bytes());
}

struct Seg {
    vaddr: u64,
    data: Vec<u8>,
    memsz: u64,
    ptype: u32,
}

struct Sym {
    name_off: u32,
    value: u64,
    size: u64,
}

/// Builds a minimal ELF64 little-endian x86-64 image: file header, program
/// headers, optional symbol/string table pair with section headers, then
/// the segments' file bytes.
fn build_image(entry: u64, segs: &[Seg], symtab: Option<(&[Sym], &[u8])>) -> Vec<u8> {
    let phnum = segs.len() as u16;
    let phoff = 64u64;
    let mut cursor = 64 + 56 * segs.len();

    let (shoff, shnum) = if symtab.is_some() {
        let off = cursor;
        cursor += 2 * 64;
        (off as u64, 2u16)
    } else {
        (0u64, 0u16)
    };
    let symtab_off = cursor;
    let (sym_bytes, str_bytes): (usize, usize) = match &symtab {
        Some((syms, strs)) => (syms.len() * 24, strs.len()),
        None => (0, 0),
    };
    let strtab_off = symtab_off + sym_bytes;
    cursor = strtab_off + str_bytes;

    let mut seg_offsets = Vec::new();
    for s in segs {
        seg_offsets.push(cursor as u64);
        cursor += s.data.len();
    }

    let mut b = vec![0u8; cursor];
    b[0] = 0x7F;
    b[1] = 0x45;
    b[2] = 0x4C;
    b[3] = 0x46;
    b[4] = 2; // 64-bit
    b[5] = 1; // little-endian
    put16(&mut b, 18, 0x3E); // x86-64
    put64(&mut b, 24, entry);
    put64(&mut b, 32, phoff);
    put64(&mut b, 40, shoff);
    put16(&mut b, 54, 56);
    put16(&mut b, 56, phnum);
    put16(&mut b, 58, 64);
    put16(&mut b, 60, shnum);

    for (i, s) in segs.iter().enumerate() {
        let p = 64 + 56 * i;
        put32(&mut b, p, s.ptype);
        put64(&mut b, p + 8, seg_offsets[i]);
        put64(&mut b, p + 16, s.vaddr);
        put64(&mut b, p + 32, s.data.len() as u64);
        put64(&mut b, p + 40, s.memsz);
    }

    if let Some((syms, strs)) = &symtab {
        // section 0: the symbol table, linked to section 1, the string table
        let s0 = shoff as usize;
        put32(&mut b, s0 + 4, 2); // SHT_SYMTAB
        put64(&mut b, s0 + 24, symtab_off as u64);
        put64(&mut b, s0 + 32, sym_bytes as u64);
        put32(&mut b, s0 + 40, 1);
        put64(&mut b, s0 + 56, 24);
        let s1 = shoff as usize + 64;
        put32(&mut b, s1 + 4, 3); // SHT_STRTAB
        put64(&mut b, s1 + 24, strtab_off as u64);
        put64(&mut b, s1 + 32, str_bytes as u64);

        for (k, sym) in syms.iter().enumerate() {
            let p = symtab_off + 24 * k;
            put32(&mut b, p, sym.name_off);
            put64(&mut b, p + 8, sym.value);
            put64(&mut b, p + 16, sym.size);
        }
        b[strtab_off..strtab_off + str_bytes].copy_from_slice(strs);
    }

    for (i, s) in segs.iter().enumerate() {
        let off = seg_offsets[i] as usize;
        b[off..off + s.data.len()].copy_from_slice(&s.data);
    }
    b
}

fn one_seg(vaddr: u64, data: Vec<u8>, memsz: u64) -> Vec<Seg> {
    vec![Seg { vaddr, data, memsz, ptype: 1 }]
}

#[test]
fn load_single_segment() {
    let data: Vec<u8> = (0..0x200).map(|i| (i % 251) as u8).collect();
    let image = build_image(KVO + 0x1000, &one_seg(KVO + 0x1000, data.clone(), 0x1000), None);
    let mut mm = MemoryManager::new();
    let loaded = parse(&mut mm, &image).unwrap();
    assert_eq!(loaded.entry.address, KVO + 0x1000);
    assert_eq!(loaded.range, PhysicalRange { base: 0x1000, page_count: 1 });
    assert_eq!(loaded.contents.len(), PAGE as usize);
    assert_eq!(&loaded.contents[..0x200], &data[..]);
    assert!(loaded.contents[0x200..0x1000].iter().all(|&x| x == 0));
    assert!(loaded.symbols.is_empty());
    assert_eq!(mm.claim_count(), 1);
}

#[test]
fn two_segments_reserved_as_one_block() {
    let d1: Vec<u8> = vec![0x11; 0x100];
    let d2: Vec<u8> = vec![0x22; 0x180];
    let segs = vec![
        Seg { vaddr: KVO + 0x1000, data: d1.clone(), memsz: 0x800, ptype: 1 },
        Seg { vaddr: KVO + 0x2800, data: d2.clone(), memsz: 0x1000, ptype: 1 },
    ];
    let image = build_image(KVO + 0x1000, &segs, None);
    let mut mm = MemoryManager::new();
    let loaded = parse(&mut mm, &image).unwrap();
    // span [0x1000, 0x3800) rounds up to 3 pages, one contiguous request
    assert_eq!(loaded.range, PhysicalRange { base: 0x1000, page_count: 3 });
    assert_eq!(mm.claim_count(), 1);
    assert_eq!(loaded.contents.len(), 3 * PAGE as usize);
    assert_eq!(&loaded.contents[..0x100], &d1[..]);
    assert_eq!(&loaded.contents[0x1800..0x1980], &d2[..]);
    // bss tails and the gap between the segments are zero
    assert!(loaded.contents[0x100..0x1800].iter().all(|&x| x == 0));
    assert!(loaded.contents[0x1980..].iter().all(|&x| x == 0));
}

#[test]
fn bss_tail_zero_filled() {
    let data: Vec<u8> = vec![0xAB; 0x80];
    let image = build_image(KVO + 0x1000, &one_seg(KVO + 0x1000, data, 0x100), None);
    let mut mm = MemoryManager::new();
    let loaded = parse(&mut mm, &image).unwrap();
    assert!(loaded.contents[..0x80].iter().all(|&x| x == 0xAB));
    assert!(loaded.contents[0x80..].iter().all(|&x| x == 0));
}

#[test]
fn fully_backed_segment_round_trips() {
    let data: Vec<u8> = (0..0x200).map(|i| (i * 7 % 256) as u8).collect();
    let image = build_image(KVO + 0x1000, &one_seg(KVO + 0x1000, data.clone(), 0x200), None);
    let mut mm = MemoryManager::new();
    let loaded = parse(&mut mm, &image).unwrap();
    assert_eq!(&loaded.contents[..0x200], &data[..]);
}

#[test]
fn entry_below_offset_rejected() {
    let image = build_image(0x1000, &one_seg(KVO + 0x1000, vec![1, 2, 3], 0x10), None);
    let mut mm = MemoryManager::new();
    assert_eq!(parse(&mut mm, &image), Err(LoadError::PolicyViolation));
    assert_eq!(mm.claim_count(), 0);
}

#[test]
fn lowest_vaddr_below_offset_rejected() {
    let image = build_image(KVO + 0x1000, &one_seg(0x4000, vec![1, 2, 3], 0x10), None);
    let mut mm = MemoryManager::new();
    assert_eq!(parse(&mut mm, &image), Err(LoadError::PolicyViolation));
    assert_eq!(mm.claim_count(), 0);
}

#[test]
fn wrong_class_rejected() {
    let mut image = build_image(KVO + 0x1000, &one_seg(KVO + 0x1000, vec![1], 0x10), None);
    image[4] = 1;
    let mut mm = MemoryManager::new();
    assert_eq!(parse(&mut mm, &image), Err(LoadError::UnsupportedImage));
}

#[test]
fn wrong_byte_order_rejected() {
    let mut image = build_image(KVO + 0x1000, &one_seg(KVO + 0x1000, vec![1], 0x10), None);
    image[5] = 2;
    let mut mm = MemoryManager::new();
    assert_eq!(parse(&mut mm, &image), Err(LoadError::UnsupportedImage));
}

#[test]
fn wrong_machine_rejected() {
    let mut image = build_image(KVO + 0x1000, &one_seg(KVO + 0x1000, vec![1], 0x10), None);
    put16(&mut image, 18, 0x28);
    let mut mm = MemoryManager::new();
    assert_eq!(parse(&mut mm, &image), Err(LoadError::UnsupportedImage));
}

#[test]
fn bad_magic_rejected() {
    let mut image = build_image(KVO + 0x1000, &one_seg(KVO + 0x1000, vec![1], 0x10), None);
    image[0] = 0x7E;
    let mut mm = MemoryManager::new();
    assert_eq!(parse(&mut mm, &image), Err(LoadError::MalformedImage));
}

#[test]
fn short_buffer_rejected() {
    let mut mm = MemoryManager::new();
    assert_eq!(parse(&mut mm, &[0x7F, 0x45, 0x4C, 0x46]), Err(LoadError::MalformedImage));
}

#[test]
fn no_loadable_segment_rejected() {
    let segs = vec![Seg { vaddr: KVO + 0x1000, data: vec![1, 2], memsz: 0x10, ptype: 4 }];
    let image = build_image(KVO + 0x1000, &segs, None);
    let mut mm = MemoryManager::new();
    assert_eq!(parse(&mut mm, &image), Err(LoadError::MalformedImage));
}

#[test]
fn segment_file_range_outside_buffer_rejected() {
    let mut image = build_image(KVO + 0x1000, &one_seg(KVO + 0x1000, vec![1, 2, 3], 0x10), None);
    let past_end = image.len() as u64;
    put64(&mut image, 64 + 8, past_end); // file offset past the end
    let mut mm = MemoryManager::new();
    assert_eq!(parse(&mut mm, &image), Err(LoadError::MalformedImage));
}

#[test]
fn memory_size_below_file_size_rejected() {
    let image = build_image(KVO + 0x1000, &one_seg(KVO + 0x1000, vec![0; 0x20], 0x10), None);
    let mut mm = MemoryManager::new();
    assert_eq!(parse(&mut mm, &image), Err(LoadError::MalformedImage));
}

#[test]
fn already_claimed_range_fails_without_copy() {
    let image = build_image(KVO + 0x1000, &one_seg(KVO + 0x1000, vec![9; 0x40], 0x40), None);
    let mut mm = MemoryManager::new();
    mm.allocate(PhysicalRange { base: 0x1000, page_count: 1 }).unwrap();
    assert_eq!(parse(&mut mm, &image), Err(LoadError::AllocationFailure));
    assert_eq!(mm.claim_count(), 1);
}

#[test]
fn second_image_into_same_range_fails() {
    let image = build_image(KVO + 0x1000, &one_seg(KVO + 0x1000, vec![9; 0x40], 0x40), None);
    let mut mm = MemoryManager::new();
    assert!(parse(&mut mm, &image).is_ok());
    assert_eq!(parse(&mut mm, &image), Err(LoadError::AllocationFailure));
    assert_eq!(mm.claim_count(), 1);
}

#[test]
fn stripped_image_yields_empty_symbols() {
    let image = build_image(KVO + 0x1000, &one_seg(KVO + 0x1000, vec![1], 0x10), None);
    let mut mm = MemoryManager::new();
    let loaded = parse(&mut mm, &image).unwrap();
    assert!(loaded.symbols.is_empty());
}

#[test]
fn symbols_extracted_in_table_order() {
    let strtab = b"\0alpha\0beta\0";
    let syms = vec![
        Sym { name_off: 1, value: KVO + 0x1000, size: 0x20 },
        Sym { name_off: 7, value: KVO + 0x1020, size: 0x10 },
    ];
    let image = build_image(
        KVO + 0x1000,
        &one_seg(KVO + 0x1000, vec![1], 0x10),
        Some((&syms, strtab)),
    );
    let mut mm = MemoryManager::new();
    let loaded = parse(&mut mm, &image).unwrap();
    assert_eq!(loaded.symbols.len(), 2);
    assert_eq!(loaded.symbols[0].name, b"alpha".to_vec());
    assert_eq!(loaded.symbols[0].start, KVO + 0x1000);
    assert_eq!(loaded.symbols[0].end, KVO + 0x1020);
    assert_eq!(loaded.symbols[1].name, b"beta".to_vec());
    assert_eq!(loaded.symbols[1].start, KVO + 0x1020);
    assert_eq!(loaded.symbols[1].end, KVO + 0x1030);
}

#[test]
fn invalid_name_offset_yields_placeholder() {
    let strtab = b"\0real\0";
    let syms = vec![
        Sym { name_off: 100, value: KVO + 0x1000, size: 8 },
        Sym { name_off: 1, value: KVO + 0x1008, size: 8 },
    ];
    let image = build_image(
        KVO + 0x1000,
        &one_seg(KVO + 0x1000, vec![1], 0x10),
        Some((&syms, strtab)),
    );
    let mut mm = MemoryManager::new();
    let loaded = parse(&mut mm, &image).unwrap();
    assert_eq!(loaded.symbols.len(), 2);
    assert_eq!(loaded.symbols[0].name, b"<unknown>".to_vec());
    assert_eq!(loaded.symbols[1].name, b"real".to_vec());
}

#[test]
fn unterminated_name_yields_placeholder() {
    let strtab = b"\0abc"; // no terminating zero after "abc"
    let syms = vec![Sym { name_off: 1, value: KVO + 0x1000, size: 8 }];
    let image = build_image(
        KVO + 0x1000,
        &one_seg(KVO + 0x1000, vec![1], 0x10),
        Some((&syms, strtab)),
    );
    let mut mm = MemoryManager::new();
    let loaded = parse(&mut mm, &image).unwrap();
    assert_eq!(loaded.symbols[0].name, b"<unknown>".to_vec());
}

#[test]
fn symbol_table_outside_buffer_rejected() {
    let strtab = b"\0x\0";
    let syms = vec![Sym { name_off: 1, value: KVO + 0x1000, size: 8 }];
    let mut image = build_image(
        KVO + 0x1000,
        &one_seg(KVO + 0x1000, vec![1], 0x10),
        Some((&syms, strtab)),
    );
    let shoff = u64::from_le_bytes(image[40..48].try_into().unwrap()) as usize;
    let past_end = image.len() as u64;
    put64(&mut image, shoff + 24, past_end); // symtab offset past the end
    let mut mm = MemoryManager::new();
    assert_eq!(parse(&mut mm, &image), Err(LoadError::MalformedImage));
}

#[test]
fn wrong_phentsize_rejected() {
    let mut image = build_image(KVO + 0x1000, &one_seg(KVO + 0x1000, vec![1], 0x10), None);
    put16(&mut image, 54, 32);
    let mut mm = MemoryManager::new();
    assert_eq!(parse(&mut mm, &image), Err(LoadError::MalformedImage));
}

#[test]
fn wrong_shentsize_rejected() {
    let strtab = b"\0x\0";
    let syms = vec![Sym { name_off: 1, value: KVO + 0x1000, size: 8 }];
    let mut image = build_image(
        KVO + 0x1000,
        &one_seg(KVO + 0x1000, vec![1], 0x10),
        Some((&syms, strtab)),
    );
    put16(&mut image, 58, 40);
    let mut mm = MemoryManager::new();
    assert_eq!(parse(&mut mm, &image), Err(LoadError::MalformedImage));
}

#[test]
fn string_table_link_outside_sections_rejected() {
    let strtab = b"\0x\0";
    let syms = vec![Sym { name_off: 1, value: KVO + 0x1000, size: 8 }];
    let mut image = build_image(
        KVO + 0x1000,
        &one_seg(KVO + 0x1000, vec![1], 0x10),
        Some((&syms, strtab)),
    );
    let shoff = u64::from_le_bytes(image[40..48].try_into().unwrap()) as usize;
    put32(&mut image, shoff + 40, 9); // sh_link names a section that is not there
    let mut mm = MemoryManager::new();
    assert_eq!(parse(&mut mm, &image), Err(LoadError::MalformedImage));
}

#[test]
fn symbol_span_wrapping_address_space_rejected() {
    let strtab = b"\0x\0";
    let syms = vec![Sym { name_off: 1, value: u64::MAX - 4, size: 8 }];
    let image = build_image(
        KVO + 0x1000,
        &one_seg(KVO + 0x1000, vec![1], 0x10),
        Some((&syms, strtab)),
    );
    let mut mm = MemoryManager::new();
    assert_eq!(parse(&mut mm, &image), Err(LoadError::MalformedImage));
}

#[test]
fn zero_name_offset_yields_empty_name() {
    let strtab = b"\0abc\0";
    let syms = vec![Sym { name_off: 0, value: KVO + 0x1000, size: 4 }];
    let image = build_image(
        KVO + 0x1000,
        &one_seg(KVO + 0x1000, vec![1], 0x10),
        Some((&syms, strtab)),
    );
    let mut mm = MemoryManager::new();
    let loaded = parse(&mut mm, &image).unwrap();
    assert_eq!(loaded.symbols[0].name, Vec::<u8>::new());
}
