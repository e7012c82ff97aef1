//! Symbol extraction: the image's symbol table, if any, read into an
//! in-memory list of (name, start, end) triples in table order. A stripped
//! image yields an empty list; a name whose string-table offset cannot be
//! resolved is replaced by a placeholder and never aborts the load.

use vstd::prelude::*;
use vstd::slice::{slice_subrange, slice_to_vec};
use crate::elf::{
    byte_at, has_symtab, le32, le64, read_u16, read_u32, read_u64, sh_entsize, sh_link, sh_offset,
    sh_size, shdr_base, shnum_of, shoff_of, symtab_index, first_symtab_from,
    lemma_first_symtab_props, wf_container, wf_section_table, SHDR_LEN, SHT_SYMTAB, SYM_LEN,
};

verus! {

broadcast use vstd::slice::axiom_spec_len;

/// One kernel symbol: its name bytes and the virtual address range
/// `[start, end)` it covers, with `end = start + declared size`.
#[derive(Clone, Debug, PartialEq, Eq)]
pub struct KernSymbol {
    pub name: Vec<u8>,
    pub start: u64,
    pub end: u64,
}

/// The name substituted for a symbol whose string-table offset is invalid.
pub open spec fn placeholder_name() -> Seq<u8> {
    seq![0x3Cu8, 0x75u8, 0x6Eu8, 0x6Bu8, 0x6Eu8, 0x6Fu8, 0x77u8, 0x6Eu8, 0x3Eu8]
}

/// Builds the placeholder name, `<unknown>`.
pub fn make_placeholder_name() -> (r: Vec<u8>)
    ensures
        r@ == placeholder_name(),
{
    let r: Vec<u8> = vec![0x3Cu8, 0x75u8, 0x6Eu8, 0x6Bu8, 0x6Eu8, 0x6Fu8, 0x77u8, 0x6Eu8, 0x3Eu8];
    proof {
        assert(r@ =~= placeholder_name());
    }
    r
}

/// How many entries the symbol table holds; zero for a stripped image.
pub open spec fn sym_count(b: Seq<u8>) -> int {
    if has_symtab(b) {
        sh_size(b, symtab_index(b)) as int / SYM_LEN as int
    } else {
        0
    }
}

/// Byte offset of symbol-table entry `k`.
pub open spec fn sym_base(b: Seq<u8>, k: int) -> int {
    sh_offset(b, symtab_index(b)) + SYM_LEN * k
}

/// String-table offset of symbol `k`'s name.
pub open spec fn sym_name_off(b: Seq<u8>, k: int) -> u32 {
    le32(b, sym_base(b, k))
}

/// Virtual address symbol `k` starts at.
pub open spec fn sym_value(b: Seq<u8>, k: int) -> u64 {
    le64(b, sym_base(b, k) + 8)
}

/// Declared size of symbol `k`.
pub open spec fn sym_size(b: Seq<u8>, k: int) -> u64 {
    le64(b, sym_base(b, k) + 16)
}

/// Section index of the string table paired with the symbol table.
pub open spec fn strtab_index(b: Seq<u8>) -> int {
    sh_link(b, symtab_index(b)) as int
}

/// Byte offset of the paired string table.
pub open spec fn strtab_off(b: Seq<u8>) -> int {
    sh_offset(b, strtab_index(b)) as int
}

/// Byte size of the paired string table.
pub open spec fn strtab_size(b: Seq<u8>) -> int {
    sh_size(b, strtab_index(b)) as int
}

/// Index of the first zero byte in `[from, end)`, or -1 if there is none.
pub open spec fn first_nul(b: Seq<u8>, from: int, end: int) -> int
    decreases end - from,
{
    if from < 0 || from >= end {
        -1
    } else if b[from] == 0 {
        from
    } else {
        first_nul(b, from + 1, end)
    }
}

/// Symbol `k`'s name offset resolves inside the string table and the name
/// is properly terminated there.
pub open spec fn name_ok(b: Seq<u8>, k: int) -> bool {
    &&& sym_name_off(b, k) < strtab_size(b)
    &&& first_nul(b, strtab_off(b) + sym_name_off(b, k), strtab_off(b) + strtab_size(b)) >= 0
}

/// Symbol `k`'s name bytes: the zero-terminated string-table entry at its
/// name offset, or the placeholder when that offset is invalid.
pub open spec fn sym_name(b: Seq<u8>, k: int) -> Seq<u8> {
    if name_ok(b, k) {
        b.subrange(
            strtab_off(b) + sym_name_off(b, k),
            first_nul(b, strtab_off(b) + sym_name_off(b, k), strtab_off(b) + strtab_size(b)),
        )
    } else {
        placeholder_name()
    }
}

/// The symbol table, if present, is structurally sound: ELF64 entry size, a
/// whole number of entries inside the buffer, a paired string table inside
/// the buffer, and no symbol whose address range wraps.
pub open spec fn wf_symbols(b: Seq<u8>) -> bool {
    has_symtab(b) ==> {
        let s = symtab_index(b);
        &&& sh_entsize(b, s) == SYM_LEN
        &&& sh_size(b, s) as int % SYM_LEN as int == 0
        &&& sh_offset(b, s) + sh_size(b, s) <= b.len()
        &&& sh_link(b, s) < shnum_of(b)
        &&& strtab_off(b) + strtab_size(b) <= b.len()
        &&& forall|k: int|
            0 <= k < sym_count(b) ==> #[trigger] (sym_value(b, k) + sym_size(b, k)) <= u64::MAX
    }
}

/// The extracted list matches the symbol table entry for entry, in order.
pub open spec fn symbols_match(b: Seq<u8>, syms: Seq<KernSymbol>) -> bool {
    &&& syms.len() == sym_count(b)
    &&& forall|k: int|
        0 <= k < syms.len() ==> {
            &&& (#[trigger] syms[k]).start == sym_value(b, k)
            &&& syms[k].end == sym_value(b, k) + sym_size(b, k)
            &&& syms[k].name@ == sym_name(b, k)
        }
}

/// Finds the image's symbol-table section, scanning in section order.
pub fn find_symtab(buffer: &[u8]) -> (r: Option<usize>)
    requires
        wf_container(buffer@),
        wf_section_table(buffer@),
    ensures
        (r is Some) <==> has_symtab(buffer@),
        r matches Some(i) ==> i == symtab_index(buffer@),
{
    let n: usize = buffer.len();
    let shnum: u16 = read_u16(buffer, 60);
    if shnum == 0 {
        return None;
    }
    let shoff: u64 = read_u64(buffer, 40);
    let mut i: u16 = 0;
    while i < shnum
        invariant
            wf_container(buffer@),
            wf_section_table(buffer@),
            shnum == shnum_of(buffer@),
            shnum > 0,
            shoff == shoff_of(buffer@),
            n == buffer@.len(),
            i <= shnum,
            symtab_index(buffer@) == first_symtab_from(buffer@, i as int),
        decreases shnum - i,
    {
        assert(shoff + SHDR_LEN * shnum <= n);
        assert(SHDR_LEN * (i as int) + SHDR_LEN <= SHDR_LEN * (shnum as int)) by (nonlinear_arith)
            requires i < shnum;
        let base: usize = (shoff + (SHDR_LEN as u64) * (i as u64)) as usize;
        assert(base == shdr_base(buffer@, i as int));
        let section_type: u32 = read_u32(buffer, base + 4);
        if section_type == SHT_SYMTAB {
            return Some(i as usize);
        }
        i = i + 1;
    }
    None
}

/// Reads the zero-terminated name at string-table offset `name_off`, or the
/// placeholder when the offset or termination is invalid.
fn read_name(buffer: &[u8], stroff: u64, strsize: u64, name_off: u32) -> (r: Vec<u8>)
    requires
        stroff + strsize <= buffer@.len(),
    ensures
        ({
            let start = stroff + name_off;
            let end = stroff + strsize;
            if name_off < strsize && first_nul(buffer@, start as int, end as int) >= 0 {
                r@ == buffer@.subrange(
                    start as int,
                    first_nul(buffer@, start as int, end as int),
                )
            } else {
                r@ == placeholder_name()
            }
        }),
{
    let n: usize = buffer.len();
    if name_off as u64 >= strsize {
        return make_placeholder_name();
    }
    let start: usize = (stroff + name_off as u64) as usize;
    let end: usize = (stroff + strsize) as usize;
    let mut j: usize = start;
    while j < end
        invariant
            stroff + strsize <= buffer@.len(),
            n == buffer@.len(),
            start <= j <= end,
            start == stroff + name_off,
            end == stroff + strsize,
            first_nul(buffer@, start as int, end as int) == first_nul(
                buffer@,
                j as int,
                end as int,
            ),
        decreases end - j,
    {
        if byte_at(buffer, j) == 0 {
            return slice_to_vec(slice_subrange(buffer, start, j));
        }
        j = j + 1;
    }
    make_placeholder_name()
}

/// Reads the symbol table into a list of (name, start, end) triples in
/// table order. A stripped image yields the empty list; an unresolvable
/// name yields the placeholder for that entry only.
pub fn extract_symbols(buffer: &[u8]) -> (syms: Vec<KernSymbol>)
    requires
        wf_container(buffer@),
        wf_section_table(buffer@),
        wf_symbols(buffer@),
    ensures
        symbols_match(buffer@, syms@),
        !has_symtab(buffer@) ==> syms@.len() == 0,
{
    let n: usize = buffer.len();
    let mut syms: Vec<KernSymbol> = Vec::new();
    let symtab = match find_symtab(buffer) {
        Some(s) => s,
        None => {
            return syms;
        },
    };
    proof {
        lemma_first_symtab_props(buffer@, 0);
    }
    let shoff: u64 = read_u64(buffer, 40);
    assert(SHDR_LEN * symtab + SHDR_LEN <= SHDR_LEN * shnum_of(buffer@)) by (nonlinear_arith)
        requires symtab < shnum_of(buffer@);
    let sbase: usize = (shoff + SHDR_LEN * (symtab as u64)) as usize;
    assert(sbase == shdr_base(buffer@, symtab as int));
    let soff: u64 = read_u64(buffer, sbase + 24);
    let ssize: u64 = read_u64(buffer, sbase + 32);
    let slink: u32 = read_u32(buffer, sbase + 40);
    assert(SHDR_LEN * slink + SHDR_LEN <= SHDR_LEN * shnum_of(buffer@)) by (nonlinear_arith)
        requires slink < shnum_of(buffer@);
    let lbase: usize = (shoff + SHDR_LEN * (slink as u64)) as usize;
    assert(lbase == shdr_base(buffer@, slink as int));
    let stroff: u64 = read_u64(buffer, lbase + 24);
    let strsize: u64 = read_u64(buffer, lbase + 32);
    let count: u64 = ssize / SYM_LEN;
    let mut k: u64 = 0;
    while k < count
        invariant
            wf_container(buffer@),
            wf_section_table(buffer@),
            wf_symbols(buffer@),
            has_symtab(buffer@),
            n == buffer@.len(),
            symtab == symtab_index(buffer@),
            soff == sh_offset(buffer@, symtab as int),
            ssize == sh_size(buffer@, symtab as int),
            stroff == strtab_off(buffer@),
            strsize == strtab_size(buffer@),
            count == sym_count(buffer@),
            k <= count,
            syms@.len() == k,
            forall|m: int|
                0 <= m < k ==> {
                    &&& (#[trigger] syms@[m]).start == sym_value(buffer@, m)
                    &&& syms@[m].end == sym_value(buffer@, m) + sym_size(buffer@, m)
                    &&& syms@[m].name@ == sym_name(buffer@, m)
                },
        decreases count - k,
    {
        proof {
            assert(SYM_LEN * (k as int) + SYM_LEN <= sh_size(buffer@, symtab as int))
                by (nonlinear_arith)
                requires
                    k < count,
                    count == sh_size(buffer@, symtab as int) as int / SYM_LEN as int,
                    sh_size(buffer@, symtab as int) as int % SYM_LEN as int == 0;
        }
        let base: usize = (soff + SYM_LEN * k) as usize;
        assert(base == sym_base(buffer@, k as int));
        let name_off: u32 = read_u32(buffer, base);
        let value: u64 = read_u64(buffer, base + 8);
        let size: u64 = read_u64(buffer, base + 16);
        let name = read_name(buffer, stroff, strsize, name_off);
        assert(name@ == sym_name(buffer@, k as int));
        assert(sym_value(buffer@, k as int) + sym_size(buffer@, k as int) <= u64::MAX);
        syms.push(KernSymbol { name, start: value, end: value + size });
        k = k + 1;
    }
    syms
}

} // verus!
