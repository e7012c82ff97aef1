//! Image validation: the checks that precede the address-range scan, each a
//! hard failure with a distinguishable cause.

use vstd::prelude::*;
use crate::elf::{
    byte_at, entry_of, has_loadable, has_symtab, lemma_first_symtab_props, phdr_at, phdr_base,
    phnum_of, phoff_of, read_u16, read_u32, read_u64, sh_offset, sh_size, shdr_base, shnum_of,
    supported, symtab_index, wf_container, wf_loadable, wf_program_table, wf_section_table,
    wf_segments, ELF_CLASS_64, ELF_DATA_LE, MACHINE_X86_64, PHDR_LEN, PT_LOAD, SHDR_LEN, SYM_LEN,
};
use crate::error::LoadError;
use crate::paging::KERNEL_VIRT_OFFSET;
use crate::symbols::{sym_count, sym_size, sym_value, wf_symbols};

verus! {

broadcast use vstd::slice::axiom_spec_len;

/// Everything beyond the file header that must hold structurally: a sound
/// program-header table with at least one loadable segment, and sound
/// section and symbol tables where present.
pub open spec fn structural_ok(b: Seq<u8>) -> bool {
    &&& wf_program_table(b)
    &&& wf_segments(b)
    &&& has_loadable(b)
    &&& wf_section_table(b)
    &&& wf_symbols(b)
}

/// The validation verdict before the address-range scan, in check order:
/// container shape, then platform support, then table structure, then the
/// higher-half policy on the entry point.
pub open spec fn pre_scan_outcome(b: Seq<u8>) -> Result<(), LoadError> {
    if !wf_container(b) {
        Err(LoadError::MalformedImage)
    } else if !supported(b) {
        Err(LoadError::UnsupportedImage)
    } else if !structural_ok(b) {
        Err(LoadError::MalformedImage)
    } else if entry_of(b) < KERNEL_VIRT_OFFSET {
        Err(LoadError::PolicyViolation)
    } else {
        Ok(())
    }
}

/// Checks the program-header table and every loadable entry in it.
fn check_program_headers(buffer: &[u8]) -> (r: bool)
    requires
        wf_container(buffer@),
    ensures
        r == (wf_program_table(buffer@) && wf_segments(buffer@) && has_loadable(buffer@)),
{
    let n: usize = buffer.len();
    let len64: u64 = n as u64;
    let phentsize: u16 = read_u16(buffer, 54);
    let phnum: u16 = read_u16(buffer, 56);
    let phoff: u64 = read_u64(buffer, 32);
    if phentsize != PHDR_LEN as u16 || phnum == 0 {
        return false;
    }
    if phoff > len64 || PHDR_LEN * (phnum as u64) > len64 - phoff {
        return false;
    }
    assert(wf_program_table(buffer@));
    let mut found: bool = false;
    let mut i: u16 = 0;
    while i < phnum
        invariant
            wf_container(buffer@),
            wf_program_table(buffer@),
            phnum == phnum_of(buffer@),
            phoff == phoff_of(buffer@),
            n == buffer@.len(),
            len64 == n as u64,
            i <= phnum,
            forall|j: int| 0 <= j < i ==> wf_loadable(buffer@, j),
            found == exists|j: int|
                0 <= j < i && (#[trigger] phdr_at(buffer@, j)).segment_type == PT_LOAD,
        decreases phnum - i,
    {
        assert(PHDR_LEN * (i as int) + PHDR_LEN <= PHDR_LEN * (phnum as int)) by (nonlinear_arith)
            requires i < phnum;
        let base: usize = (phoff + PHDR_LEN * (i as u64)) as usize;
        assert(base == phdr_base(buffer@, i as int));
        let segment_type: u32 = read_u32(buffer, base);
        if segment_type == PT_LOAD {
            let file_offset: u64 = read_u64(buffer, base + 8);
            let virtual_address: u64 = read_u64(buffer, base + 16);
            let file_size: u64 = read_u64(buffer, base + 32);
            let memory_size: u64 = read_u64(buffer, base + 40);
            if file_size > memory_size {
                assert(!wf_loadable(buffer@, i as int));
                return false;
            }
            if file_offset > len64 || file_size > len64 - file_offset {
                assert(!wf_loadable(buffer@, i as int));
                return false;
            }
            if memory_size > u64::MAX - virtual_address {
                assert(!wf_loadable(buffer@, i as int));
                return false;
            }
            assert(wf_loadable(buffer@, i as int));
            assert((phdr_at(buffer@, i as int)).segment_type == PT_LOAD);
            found = true;
        } else {
            assert(wf_loadable(buffer@, i as int));
            assert((phdr_at(buffer@, i as int)).segment_type != PT_LOAD);
        }
        i = i + 1;
    }
    found
}

/// Checks the section-header table and, when a symbol table is present,
/// the symbol table, its paired string table, and every symbol's span.
fn check_sections(buffer: &[u8]) -> (r: bool)
    requires
        wf_container(buffer@),
    ensures
        r == (wf_section_table(buffer@) && wf_symbols(buffer@)),
{
    let n: usize = buffer.len();
    let len64: u64 = n as u64;
    let shnum: u16 = read_u16(buffer, 60);
    if shnum == 0 {
        assert(symtab_index(buffer@) == -1);
        return true;
    }
    let shentsize: u16 = read_u16(buffer, 58);
    let shoff: u64 = read_u64(buffer, 40);
    if shentsize != SHDR_LEN as u16 {
        return false;
    }
    if shoff > len64 || SHDR_LEN * (shnum as u64) > len64 - shoff {
        return false;
    }
    assert(wf_section_table(buffer@));
    let symtab: usize = match crate::symbols::find_symtab(buffer) {
        Some(s) => s,
        None => {
            return true;
        },
    };
    proof {
        lemma_first_symtab_props(buffer@, 0);
    }
    assert(SHDR_LEN * symtab + SHDR_LEN <= SHDR_LEN * shnum_of(buffer@)) by (nonlinear_arith)
        requires symtab < shnum_of(buffer@);
    let sbase: usize = (shoff + SHDR_LEN * (symtab as u64)) as usize;
    assert(sbase == shdr_base(buffer@, symtab as int));
    let entsize: u64 = read_u64(buffer, sbase + 56);
    let soff: u64 = read_u64(buffer, sbase + 24);
    let ssize: u64 = read_u64(buffer, sbase + 32);
    let slink: u32 = read_u32(buffer, sbase + 40);
    if entsize != SYM_LEN || ssize % SYM_LEN != 0 {
        return false;
    }
    if soff > len64 || ssize > len64 - soff {
        return false;
    }
    if slink >= shnum as u32 {
        return false;
    }
    assert(SHDR_LEN * (slink as int) + SHDR_LEN <= SHDR_LEN * shnum_of(buffer@))
        by (nonlinear_arith)
        requires (slink as int) < shnum_of(buffer@);
    let lbase: usize = (shoff + SHDR_LEN * (slink as u64)) as usize;
    assert(lbase == shdr_base(buffer@, slink as int));
    let stroff: u64 = read_u64(buffer, lbase + 24);
    let strsize: u64 = read_u64(buffer, lbase + 32);
    if stroff > len64 || strsize > len64 - stroff {
        return false;
    }
    let count: u64 = ssize / SYM_LEN;
    assert(count == sym_count(buffer@));
    let mut k: u64 = 0;
    while k < count
        invariant
            wf_container(buffer@),
            wf_section_table(buffer@),
            has_symtab(buffer@),
            symtab == symtab_index(buffer@),
            soff == sh_offset(buffer@, symtab as int),
            ssize == sh_size(buffer@, symtab as int),
            ssize % SYM_LEN == 0,
            soff + ssize <= buffer@.len(),
            n == buffer@.len(),
            count == sym_count(buffer@),
            k <= count,
            forall|m: int|
                0 <= m < k ==> #[trigger] (sym_value(buffer@, m) + sym_size(buffer@, m))
                    <= u64::MAX,
        decreases count - k,
    {
        proof {
            assert(SYM_LEN * (k as int) + SYM_LEN <= sh_size(buffer@, symtab as int))
                by (nonlinear_arith)
                requires
                    k < count,
                    count == sh_size(buffer@, symtab as int) as int / SYM_LEN as int,
                    sh_size(buffer@, symtab as int) as int % SYM_LEN as int == 0;
        }
        let base: usize = (soff + SYM_LEN * k) as usize;
        assert(base == crate::symbols::sym_base(buffer@, k as int));
        let value: u64 = read_u64(buffer, base + 8);
        let size: u64 = read_u64(buffer, base + 16);
        if size > u64::MAX - value {
            assert(sym_value(buffer@, k as int) + sym_size(buffer@, k as int) > u64::MAX);
            assert(!wf_symbols(buffer@));
            return false;
        }
        k = k + 1;
    }
    true
}

/// Validates the image up to the entry-point policy: ELF64 container shape,
/// platform support, table structure, then the higher-half entry check.
/// The verdict, including which failure is reported first, is exactly
/// `pre_scan_outcome`.
pub fn validate(buffer: &[u8]) -> (r: Result<(), LoadError>)
    ensures
        r == pre_scan_outcome(buffer@),
{
    let n: usize = buffer.len();
    if n < 64 {
        return Err(LoadError::MalformedImage);
    }
    if byte_at(buffer, 0) != 0x7F || byte_at(buffer, 1) != 0x45 || byte_at(buffer, 2) != 0x4C
        || byte_at(buffer, 3) != 0x46 {
        return Err(LoadError::MalformedImage);
    }
    if byte_at(buffer, 4) != ELF_CLASS_64 || byte_at(buffer, 5) != ELF_DATA_LE
        || read_u16(buffer, 18) != MACHINE_X86_64 {
        return Err(LoadError::UnsupportedImage);
    }
    if !check_program_headers(buffer) {
        return Err(LoadError::MalformedImage);
    }
    if !check_sections(buffer) {
        return Err(LoadError::MalformedImage);
    }
    if read_u64(buffer, 24) < KERNEL_VIRT_OFFSET {
        return Err(LoadError::PolicyViolation);
    }
    Ok(())
}

} // verus!
