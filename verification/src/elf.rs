//! The ELF64 little-endian container format: its layout as spec functions
//! over the raw bytes, and verified readers for the fields the loader needs.

use vstd::prelude::*;
use vstd::bytes::{
    spec_u16_from_le_bytes, spec_u32_from_le_bytes, spec_u64_from_le_bytes, u16_from_le_bytes,
    u32_from_le_bytes, u64_from_le_bytes,
};
use vstd::slice::{slice_index_get, slice_subrange};

verus! {

broadcast use vstd::slice::axiom_spec_len;

/// File-header word-size tag for a 64-bit image.
pub const ELF_CLASS_64: u8 = 2;

/// File-header byte-order tag for a little-endian image.
pub const ELF_DATA_LE: u8 = 1;

/// Machine type of the one supported platform.
pub const MACHINE_X86_64: u16 = 0x3E;

/// Program-header type of a loadable segment.
pub const PT_LOAD: u32 = 1;

/// Section-header type of a symbol table.
pub const SHT_SYMTAB: u32 = 2;

/// Byte length of the ELF64 file header.
pub const EHDR_LEN: u64 = 64;

/// Byte length of one ELF64 program-header entry.
pub const PHDR_LEN: u64 = 56;

/// Byte length of one ELF64 section-header entry.
pub const SHDR_LEN: u64 = 64;

/// Byte length of one ELF64 symbol-table entry.
pub const SYM_LEN: u64 = 24;

/// One loadable program-header entry, reduced to the fields the loader reads.
/// A well-formed entry has `memory_size >= file_size`; the tail bytes beyond
/// `file_size` have no file backing and are zero-filled at load time.
#[derive(Clone, Copy, Debug, PartialEq, Eq, Structural)]
pub struct ProgramHeader {
    pub segment_type: u32,
    pub file_offset: u64,
    pub virtual_address: u64,
    pub file_size: u64,
    pub memory_size: u64,
}

/// The little-endian 16-bit value at byte offset `off`.
pub open spec fn le16(b: Seq<u8>, off: int) -> u16 {
    spec_u16_from_le_bytes(b.subrange(off, off + 2))
}

/// The little-endian 32-bit value at byte offset `off`.
pub open spec fn le32(b: Seq<u8>, off: int) -> u32 {
    spec_u32_from_le_bytes(b.subrange(off, off + 4))
}

/// The little-endian 64-bit value at byte offset `off`.
pub open spec fn le64(b: Seq<u8>, off: int) -> u64 {
    spec_u64_from_le_bytes(b.subrange(off, off + 8))
}

/// The buffer is at least one file header long and starts with the magic.
pub open spec fn wf_container(b: Seq<u8>) -> bool {
    &&& b.len() >= EHDR_LEN
    &&& b[0] == 0x7Fu8
    &&& b[1] == 0x45u8
    &&& b[2] == 0x4Cu8
    &&& b[3] == 0x46u8
}

pub open spec fn class_of(b: Seq<u8>) -> u8 {
    b[4]
}

pub open spec fn data_encoding_of(b: Seq<u8>) -> u8 {
    b[5]
}

pub open spec fn machine_of(b: Seq<u8>) -> u16 {
    le16(b, 18)
}

pub open spec fn entry_of(b: Seq<u8>) -> u64 {
    le64(b, 24)
}

pub open spec fn phoff_of(b: Seq<u8>) -> u64 {
    le64(b, 32)
}

pub open spec fn shoff_of(b: Seq<u8>) -> u64 {
    le64(b, 40)
}

pub open spec fn phentsize_of(b: Seq<u8>) -> u16 {
    le16(b, 54)
}

pub open spec fn phnum_of(b: Seq<u8>) -> u16 {
    le16(b, 56)
}

pub open spec fn shentsize_of(b: Seq<u8>) -> u16 {
    le16(b, 58)
}

pub open spec fn shnum_of(b: Seq<u8>) -> u16 {
    le16(b, 60)
}

/// The image is 64-bit, little-endian, and for the supported machine.
pub open spec fn supported(b: Seq<u8>) -> bool {
    &&& class_of(b) == ELF_CLASS_64
    &&& data_encoding_of(b) == ELF_DATA_LE
    &&& machine_of(b) == MACHINE_X86_64
}

/// Byte offset of program-header entry `i`.
pub open spec fn phdr_base(b: Seq<u8>, i: int) -> int {
    phoff_of(b) + PHDR_LEN * i
}

/// Program-header entry `i`, decoded.
pub open spec fn phdr_at(b: Seq<u8>, i: int) -> ProgramHeader {
    (ProgramHeader {
        segment_type: le32(b, phdr_base(b, i)),
        file_offset: le64(b, phdr_base(b, i) + 8),
        virtual_address: le64(b, phdr_base(b, i) + 16),
        file_size: le64(b, phdr_base(b, i) + 32),
        memory_size: le64(b, phdr_base(b, i) + 40),
    })
}

/// The program-header table has the ELF64 entry size, is non-empty, and lies
/// inside the buffer.
pub open spec fn wf_program_table(b: Seq<u8>) -> bool {
    &&& phentsize_of(b) == PHDR_LEN
    &&& phnum_of(b) >= 1
    &&& phoff_of(b) + PHDR_LEN * phnum_of(b) <= b.len()
}

/// Loadable entry `i` (if it is loadable) is internally consistent: the file
/// range lies inside the buffer, the declared memory span does not wrap the
/// address space, and the memory size covers the file size.
pub open spec fn wf_loadable(b: Seq<u8>, i: int) -> bool {
    phdr_at(b, i).segment_type == PT_LOAD ==> {
        let p = phdr_at(b, i);
        &&& p.file_size <= p.memory_size
        &&& p.file_offset + p.file_size <= b.len()
        &&& p.virtual_address + p.memory_size <= u64::MAX
    }
}

/// Every loadable program-header entry is internally consistent.
pub open spec fn wf_segments(b: Seq<u8>) -> bool {
    forall|i: int| 0 <= i < phnum_of(b) ==> wf_loadable(b, i)
}

/// The image has at least one loadable segment.
pub open spec fn has_loadable(b: Seq<u8>) -> bool {
    exists|i: int| 0 <= i < phnum_of(b) && phdr_at(b, i).segment_type == PT_LOAD
}

/// Byte offset of section-header entry `i`.
pub open spec fn shdr_base(b: Seq<u8>, i: int) -> int {
    shoff_of(b) + SHDR_LEN * i
}

pub open spec fn sh_type(b: Seq<u8>, i: int) -> u32 {
    le32(b, shdr_base(b, i) + 4)
}

pub open spec fn sh_offset(b: Seq<u8>, i: int) -> u64 {
    le64(b, shdr_base(b, i) + 24)
}

pub open spec fn sh_size(b: Seq<u8>, i: int) -> u64 {
    le64(b, shdr_base(b, i) + 32)
}

pub open spec fn sh_link(b: Seq<u8>, i: int) -> u32 {
    le32(b, shdr_base(b, i) + 40)
}

pub open spec fn sh_entsize(b: Seq<u8>, i: int) -> u64 {
    le64(b, shdr_base(b, i) + 56)
}

/// The section-header table, if present, has the ELF64 entry size and lies
/// inside the buffer. An image without sections is valid (it is stripped).
pub open spec fn wf_section_table(b: Seq<u8>) -> bool {
    shnum_of(b) > 0 ==> {
        &&& shentsize_of(b) == SHDR_LEN
        &&& shoff_of(b) + SHDR_LEN * shnum_of(b) <= b.len()
    }
}

/// Index of the first symbol-table section at or after `i`, or -1 if none.
pub open spec fn first_symtab_from(b: Seq<u8>, i: int) -> int
    decreases shnum_of(b) - i,
{
    if i < 0 || i >= shnum_of(b) {
        -1
    } else if sh_type(b, i) == SHT_SYMTAB {
        i
    } else {
        first_symtab_from(b, i + 1)
    }
}

/// Index of the image's symbol-table section, or -1 for a stripped image.
pub open spec fn symtab_index(b: Seq<u8>) -> int {
    first_symtab_from(b, 0)
}

pub open spec fn has_symtab(b: Seq<u8>) -> bool {
    symtab_index(b) >= 0
}

/// A found symbol-table index lies in the section table and names a
/// symbol-table section.
pub proof fn lemma_first_symtab_props(b: Seq<u8>, i: int)
    requires
        0 <= i,
    ensures
        first_symtab_from(b, i) == -1 || (i <= first_symtab_from(b, i) < shnum_of(b)
            && sh_type(b, first_symtab_from(b, i)) == SHT_SYMTAB),
    decreases shnum_of(b) - i,
{
    if i >= shnum_of(b) {
    } else if sh_type(b, i) == SHT_SYMTAB {
    } else {
        lemma_first_symtab_props(b, i + 1);
    }
}

/// Reads the byte at offset `off`.
pub fn byte_at(buffer: &[u8], off: usize) -> (r: u8)
    requires
        off < buffer@.len(),
    ensures
        r == buffer@[off as int],
{
    *slice_index_get(buffer, off)
}

/// Reads the little-endian 16-bit value at offset `off`.
pub fn read_u16(buffer: &[u8], off: usize) -> (r: u16)
    requires
        off + 2 <= buffer@.len(),
    ensures
        r == le16(buffer@, off as int),
{
    let n: usize = buffer.len();
    u16_from_le_bytes(slice_subrange(buffer, off, off + 2))
}

/// Reads the little-endian 32-bit value at offset `off`.
pub fn read_u32(buffer: &[u8], off: usize) -> (r: u32)
    requires
        off + 4 <= buffer@.len(),
    ensures
        r == le32(buffer@, off as int),
{
    let n: usize = buffer.len();
    u32_from_le_bytes(slice_subrange(buffer, off, off + 4))
}

/// Reads the little-endian 64-bit value at offset `off`.
pub fn read_u64(buffer: &[u8], off: usize) -> (r: u64)
    requires
        off + 8 <= buffer@.len(),
    ensures
        r == le64(buffer@, off as int),
{
    let n: usize = buffer.len();
    u64_from_le_bytes(slice_subrange(buffer, off, off + 8))
}

} // verus!
