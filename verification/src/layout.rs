//! Address-range scanning: which program-header entries are loadable, and
//! the contiguous physical footprint their virtual span maps to.

use vstd::prelude::*;
use vstd::arithmetic::div_mod::lemma_fundamental_div_mod;
use crate::elf::{
    phdr_at, phdr_base, phnum_of, phoff_of, wf_container, wf_program_table, read_u16, read_u32,
    read_u64, ProgramHeader, PHDR_LEN, PT_LOAD,
};
use crate::error::LoadError;
use crate::paging::{KERNEL_VIRT_OFFSET, PAGE_SIZE};

verus! {

broadcast use vstd::slice::axiom_spec_len;

/// A contiguous run of physical page frames, as handed to the memory
/// manager: `page_count` whole pages starting at `base`.
#[derive(Clone, Copy, Debug, PartialEq, Eq, Structural)]
pub struct PhysicalRange {
    pub base: u64,
    pub page_count: u64,
}

/// The loadable program-header entries among the first `n`, in table order.
pub open spec fn loadables_upto(b: Seq<u8>, n: int) -> Seq<ProgramHeader>
    decreases n,
{
    if n <= 0 {
        Seq::empty()
    } else if phdr_at(b, n - 1).segment_type == PT_LOAD {
        loadables_upto(b, n - 1).push(phdr_at(b, n - 1))
    } else {
        loadables_upto(b, n - 1)
    }
}

/// All loadable program-header entries of the image, in table order.
pub open spec fn loadables(b: Seq<u8>) -> Seq<ProgramHeader> {
    loadables_upto(b, phnum_of(b) as int)
}

/// The lowest virtual address any of the segments loads at.
pub open spec fn min_vaddr(s: Seq<ProgramHeader>) -> int
    decreases s.len(),
{
    if s.len() <= 1 {
        if s.len() == 1 {
            s[0].virtual_address as int
        } else {
            0
        }
    } else {
        let m = min_vaddr(s.drop_last());
        if (s.last().virtual_address as int) < m {
            s.last().virtual_address as int
        } else {
            m
        }
    }
}

/// The highest virtual address just past any of the segments' memory spans.
pub open spec fn max_vend(s: Seq<ProgramHeader>) -> int
    decreases s.len(),
{
    if s.len() <= 1 {
        if s.len() == 1 {
            s[0].virtual_address + s[0].memory_size
        } else {
            0
        }
    } else {
        let m = max_vend(s.drop_last());
        if s.last().virtual_address + s.last().memory_size > m {
            s.last().virtual_address + s.last().memory_size
        } else {
            m
        }
    }
}

/// Whole pages needed to cover the span from `lo` up to `hi`.
pub open spec fn spec_page_count(lo: int, hi: int) -> int {
    (hi - lo + (PAGE_SIZE - 1)) / (PAGE_SIZE as int)
}

/// `min_vaddr` is a lower bound on the addresses and is attained, and
/// `max_vend` is an upper bound on the span ends and is attained.
pub proof fn lemma_minmax_bounds(s: Seq<ProgramHeader>)
    requires
        s.len() >= 1,
    ensures
        forall|i: int| 0 <= i < s.len() ==> min_vaddr(s) <= #[trigger] s[i].virtual_address,
        exists|i: int| 0 <= i < s.len() && min_vaddr(s) == #[trigger] s[i].virtual_address,
        forall|i: int|
            0 <= i < s.len() ==> #[trigger] (s[i].virtual_address + s[i].memory_size)
                <= max_vend(s),
        exists|i: int|
            0 <= i < s.len() && max_vend(s) == #[trigger] (s[i].virtual_address
                + s[i].memory_size),
        min_vaddr(s) <= max_vend(s),
    decreases s.len(),
{
    if s.len() == 1 {
        assert(min_vaddr(s) == s[0].virtual_address);
        assert(max_vend(s) == s[0].virtual_address + s[0].memory_size);
    } else {
        lemma_minmax_bounds(s.drop_last());
        let t = s.drop_last();
        assert(forall|i: int| 0 <= i < t.len() ==> t[i] == s[i]);
        let wmin = choose|i: int| 0 <= i < t.len() && min_vaddr(t) == #[trigger] t[i].virtual_address;
        let wmax = choose|i: int|
            0 <= i < t.len() && max_vend(t) == #[trigger] (t[i].virtual_address
                + t[i].memory_size);
        if (s.last().virtual_address as int) < min_vaddr(t) {
            assert(min_vaddr(s) == s[s.len() - 1].virtual_address);
        } else {
            assert(min_vaddr(s) == s[wmin].virtual_address);
        }
        if s.last().virtual_address + s.last().memory_size > max_vend(t) {
            assert(max_vend(s) == s[s.len() - 1].virtual_address + s[s.len() - 1].memory_size);
        } else {
            assert(max_vend(s) == s[wmax].virtual_address + s[wmax].memory_size);
        }
        let j = choose|i: int| 0 <= i < s.len() && min_vaddr(s) == #[trigger] s[i].virtual_address;
        assert(s[j].virtual_address + s[j].memory_size <= max_vend(s));
    }
}

/// Walks the program-header table and returns the loadable entries in order.
pub fn collect_loadables(buffer: &[u8]) -> (segs: Vec<ProgramHeader>)
    requires
        wf_container(buffer@),
        wf_program_table(buffer@),
    ensures
        segs@ == loadables(buffer@),
{
    let n: usize = buffer.len();
    let phoff: u64 = read_u64(buffer, 32);
    let phnum: u16 = read_u16(buffer, 56);
    let mut segs: Vec<ProgramHeader> = Vec::new();
    let mut i: u16 = 0;
    while i < phnum
        invariant
            wf_container(buffer@),
            wf_program_table(buffer@),
            phoff == phoff_of(buffer@),
            phnum == phnum_of(buffer@),
            n == buffer@.len(),
            i <= phnum,
            segs@ == loadables_upto(buffer@, i as int),
        decreases phnum - i,
    {
        assert(phoff + PHDR_LEN * phnum <= n);
        assert(PHDR_LEN * (i as int) + PHDR_LEN <= PHDR_LEN * (phnum as int)) by (nonlinear_arith)
            requires i < phnum;
        let base: usize = (phoff + (PHDR_LEN as u64) * (i as u64)) as usize;
        assert(base == phdr_base(buffer@, i as int));
        let segment_type: u32 = read_u32(buffer, base);
        if segment_type == PT_LOAD {
            let header = ProgramHeader {
                segment_type,
                file_offset: read_u64(buffer, base + 8),
                virtual_address: read_u64(buffer, base + 16),
                file_size: read_u64(buffer, base + 32),
                memory_size: read_u64(buffer, base + 40),
            };
            assert(header == phdr_at(buffer@, i as int));
            segs.push(header);
        }
        i = i + 1;
    }
    segs
}

/// Computes the contiguous physical footprint of the loadable segments:
/// their lowest virtual address mapped down by the fixed kernel offset, and
/// the whole-page count covering the span up to their highest address.
/// Rejects spans that start below the higher-half boundary.
///
/// The whole span is treated as one contiguous block: a gap between two
/// segments' virtual ranges is deliberately reserved along with them and
/// later zero-filled, a simplification valid because the kernel's link-time
/// layout and its physical placement are both under this loader's control.
pub fn scan_range(segs: &Vec<ProgramHeader>) -> (r: Result<PhysicalRange, LoadError>)
    requires
        segs@.len() >= 1,
        forall|i: int|
            0 <= i < segs@.len() ==> #[trigger] (segs@[i].virtual_address
                + segs@[i].memory_size) <= u64::MAX,
    ensures
        (r is Ok) <==> min_vaddr(segs@) >= KERNEL_VIRT_OFFSET,
        (r matches Err(e) ==> e == LoadError::PolicyViolation),
        (r matches Ok(pr) ==> {
            &&& pr.base == min_vaddr(segs@) - KERNEL_VIRT_OFFSET
            &&& pr.page_count == spec_page_count(min_vaddr(segs@), max_vend(segs@))
            &&& pr.base + pr.page_count * PAGE_SIZE >= max_vend(segs@) - KERNEL_VIRT_OFFSET
            &&& pr.page_count * PAGE_SIZE <= 0x8000_0000u64
        }),
{
    let mut low: u64 = segs[0].virtual_address;
    let mut high: u64 = {
        let s0 = segs[0];
        s0.virtual_address + s0.memory_size
    };
    let mut i: usize = 1;
    while i < segs.len()
        invariant
            1 <= i <= segs@.len(),
            forall|k: int|
                0 <= k < segs@.len() ==> #[trigger] (segs@[k].virtual_address
                    + segs@[k].memory_size) <= u64::MAX,
            low == min_vaddr(segs@.take(i as int)),
            high == max_vend(segs@.take(i as int)),
        decreases segs@.len() - i,
    {
        let s = segs[i];
        proof {
            assert(segs@.take(i + 1).drop_last() =~= segs@.take(i as int));
            assert(segs@.take(i + 1).last() == segs@[i as int]);
        }
        if s.virtual_address < low {
            low = s.virtual_address;
        }
        if s.virtual_address + s.memory_size > high {
            high = s.virtual_address + s.memory_size;
        }
        i = i + 1;
    }
    proof {
        assert(segs@.take(segs@.len() as int) =~= segs@);
    }
    if low < KERNEL_VIRT_OFFSET {
        return Err(LoadError::PolicyViolation);
    }
    proof {
        lemma_minmax_bounds(segs@);
    }
    let span: u64 = high - low;
    let page_count: u64 = (span + (PAGE_SIZE - 1)) / PAGE_SIZE;
    proof {
        lemma_fundamental_div_mod((span + (PAGE_SIZE - 1)) as int, PAGE_SIZE as int);
    }
    Ok(PhysicalRange { base: low - KERNEL_VIRT_OFFSET, page_count })
}

} // verus!
