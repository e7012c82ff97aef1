//! The loader itself: validate the image, scan its loadable span, reserve
//! the physical range, copy segments, extract symbols, and resolve the
//! entry point.

use vstd::prelude::*;
use crate::copier::{copy_segments, segments_copied, segs_disjoint, zero_filled};
use crate::elf::{
    entry_of, has_loadable, phdr_at, phnum_of, read_u64, wf_container, wf_loadable,
    wf_program_table, wf_segments, ProgramHeader, PT_LOAD,
};
use crate::error::LoadError;
use crate::layout::{
    collect_loadables, loadables, loadables_upto, max_vend, min_vaddr, scan_range,
    spec_page_count, PhysicalRange,
};
use crate::mem::MemoryManager;
use crate::paging::{KERNEL_VIRT_OFFSET, PAGE_SIZE};
use crate::symbols::{extract_symbols, symbols_match, KernSymbol};
use crate::validate::{pre_scan_outcome, validate};

verus! {

/// The validated entry address, as a callable handle. Converting it to an
/// actual function pointer, after the copied pages are mapped executable,
/// is the caller's business.
#[derive(Clone, Copy, Debug, PartialEq, Eq, Structural)]
pub struct EntryPoint {
    pub address: u64,
}

/// Everything a successful load produces: the entry point, the symbol
/// list, the reserved physical range, and the bytes to place there.
#[derive(Debug, PartialEq, Eq)]
pub struct LoadedImage {
    pub entry: EntryPoint,
    pub symbols: Vec<KernSymbol>,
    pub range: PhysicalRange,
    pub contents: Vec<u8>,
}

/// A loadable segment is internally consistent with a buffer of length
/// `blen`: file range inside the buffer, memory size covering file size,
/// and a non-wrapping memory span.
pub open spec fn seg_wf(blen: int, p: ProgramHeader) -> bool {
    &&& p.segment_type == PT_LOAD
    &&& p.file_size <= p.memory_size
    &&& p.file_offset + p.file_size <= blen
    &&& p.virtual_address + p.memory_size <= u64::MAX
}

/// The physical range a valid image requires: its lowest loadable virtual
/// address mapped down by the fixed offset, and whole pages covering the
/// span up to its highest loadable address.
pub open spec fn spec_range(b: Seq<u8>) -> PhysicalRange {
    (PhysicalRange {
        base: (min_vaddr(loadables(b)) - KERNEL_VIRT_OFFSET) as u64,
        page_count: spec_page_count(min_vaddr(loadables(b)), max_vend(loadables(b))) as u64,
    })
}

/// The image passes every validation step: container, support, structure,
/// and the higher-half policy on both the entry point and the loadable span.
pub open spec fn accepted(b: Seq<u8>) -> bool {
    &&& pre_scan_outcome(b) is Ok
    &&& min_vaddr(loadables(b)) >= KERNEL_VIRT_OFFSET
}

/// The higher-half policy law: an image whose entry point or lowest
/// loadable virtual address lies below the fixed kernel virtual offset is
/// never accepted, whatever its other fields hold.
pub proof fn lemma_policy_rejection(b: Seq<u8>)
    requires
        entry_of(b) < KERNEL_VIRT_OFFSET || min_vaddr(loadables(b)) < KERNEL_VIRT_OFFSET,
    ensures
        !accepted(b),
{
}

/// Every entry collected among the first `n` is a well-formed loadable one.
proof fn lemma_loadables_wf(b: Seq<u8>, n: int)
    requires
        0 <= n <= phnum_of(b),
        forall|i: int| 0 <= i < phnum_of(b) ==> wf_loadable(b, i),
    ensures
        forall|k: int|
            0 <= k < loadables_upto(b, n).len() ==> seg_wf(
                b.len() as int,
                #[trigger] loadables_upto(b, n)[k],
            ),
    decreases n,
{
    if n > 0 {
        lemma_loadables_wf(b, n - 1);
        assert(wf_loadable(b, n - 1));
        if phdr_at(b, n - 1).segment_type == PT_LOAD {
            assert(forall|k: int|
                0 <= k < loadables_upto(b, n - 1).len() ==> loadables_upto(b, n)[k]
                    == loadables_upto(b, n - 1)[k]);
        }
    }
}

/// An image with a loadable entry yields a non-empty collection.
proof fn lemma_loadables_nonempty(b: Seq<u8>, n: int)
    requires
        exists|i: int| 0 <= i < n && #[trigger] phdr_at(b, i).segment_type == PT_LOAD,
    ensures
        loadables_upto(b, n).len() >= 1,
    decreases n,
{
    let w = choose|i: int| 0 <= i < n && #[trigger] phdr_at(b, i).segment_type == PT_LOAD;
    if w < n - 1 {
        lemma_loadables_nonempty(b, n - 1);
    }
}

/// Loads a kernel image: validates it, reserves with the memory manager
/// the exact physical range its loadable span maps to under the fixed
/// virtual offset, produces the loaded block (file bytes copied, all else
/// zero-filled), extracts the symbol table, and resolves the entry point.
///
/// Succeeds exactly on an accepted image whose physical range is still
/// free; on any failure the memory manager is left untouched and no block
/// is produced. The reserved range always covers the image footprint.
pub fn parse(mem_mgr: &mut MemoryManager, buffer: &[u8]) -> (r: Result<LoadedImage, LoadError>)
    ensures
        (r is Ok) <==> (accepted(buffer@) && old(mem_mgr).range_free(spec_range(buffer@))),
        r is Err ==> *final(mem_mgr) == *old(mem_mgr),
        (r matches Err(e) ==> {
            &&& (pre_scan_outcome(buffer@) matches Err(e0) ==> e == e0)
            &&& (pre_scan_outcome(buffer@) is Ok && min_vaddr(loadables(buffer@))
                < KERNEL_VIRT_OFFSET ==> e == LoadError::PolicyViolation)
            &&& (accepted(buffer@) && !old(mem_mgr).range_free(spec_range(buffer@)) ==> e
                == LoadError::AllocationFailure)
        }),
        (r matches Ok(li) ==> {
            &&& li.entry.address == entry_of(buffer@)
            &&& entry_of(buffer@) >= KERNEL_VIRT_OFFSET
            &&& li.range == spec_range(buffer@)
            &&& final(mem_mgr).claims() == old(mem_mgr).claims().push(li.range)
            &&& li.range.base + li.range.page_count * PAGE_SIZE >= max_vend(loadables(buffer@))
                - KERNEL_VIRT_OFFSET
            &&& li.contents@.len() == li.range.page_count * PAGE_SIZE
            &&& zero_filled(li.contents@, loadables(buffer@), min_vaddr(loadables(buffer@)))
            &&& (segs_disjoint(loadables(buffer@)) ==> segments_copied(
                buffer@,
                li.contents@,
                loadables(buffer@),
                min_vaddr(loadables(buffer@)),
            ))
            &&& symbols_match(buffer@, li.symbols@)
        }),
{
    match validate(buffer) {
        Ok(()) => {},
        Err(e) => {
            return Err(e);
        },
    }
    assert(wf_container(buffer@) && wf_program_table(buffer@) && wf_segments(buffer@)
        && has_loadable(buffer@));
    let segs = collect_loadables(buffer);
    proof {
        lemma_loadables_wf(buffer@, phnum_of(buffer@) as int);
        lemma_loadables_nonempty(buffer@, phnum_of(buffer@) as int);
        assert(forall|k: int|
            0 <= k < segs@.len() ==> seg_wf(buffer@.len() as int, #[trigger] segs@[k]));
    }
    let range = match scan_range(&segs) {
        Ok(pr) => pr,
        Err(e) => {
            return Err(e);
        },
    };
    match mem_mgr.allocate(range) {
        Ok(()) => {},
        Err(e) => {
            return Err(e);
        },
    }
    proof {
        crate::layout::lemma_minmax_bounds(segs@);
    }
    let span: usize = (range.page_count * PAGE_SIZE) as usize;
    let low: u64 = range.base + KERNEL_VIRT_OFFSET;
    let contents = copy_segments(buffer, &segs, low, span);
    let symbols = extract_symbols(buffer);
    let entry = read_u64(buffer, 24);
    Ok(LoadedImage { entry: EntryPoint { address: entry }, symbols, range, contents })
}

} // verus!
