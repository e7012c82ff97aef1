//! Segment copying: file bytes placed at each loadable segment's
//! destination, with the declared-but-unbacked tail zero-filled.
//!
//! The copier works on an owned byte buffer standing for the reserved
//! physical block; placing that block at its physical base address is the
//! caller's single unchecked operation, outside this library.

use vstd::prelude::*;
use crate::elf::ProgramHeader;

verus! {

broadcast use vstd::slice::axiom_spec_len;

/// Position `k` of the block lies in the file-backed window of one of the
/// first `n` segments.
pub open spec fn in_file_window_upto(
    segs: Seq<ProgramHeader>,
    low: int,
    n: int,
    k: int,
) -> bool {
    exists|i: int|
        0 <= i < n && i < segs.len() && (#[trigger] segs[i]).virtual_address - low <= k
            < segs[i].virtual_address - low + segs[i].file_size
}

/// Position `k` of the block lies in some segment's file-backed window.
pub open spec fn in_file_window(segs: Seq<ProgramHeader>, low: int, k: int) -> bool {
    in_file_window_upto(segs, low, segs.len() as int, k)
}

/// Byte `j` of segment `i`'s file range sits, unchanged, at the segment's
/// destination inside the block.
pub open spec fn seg_copied_at(
    b: Seq<u8>,
    out: Seq<u8>,
    segs: Seq<ProgramHeader>,
    low: int,
    i: int,
    j: int,
) -> bool {
    out[segs[i].virtual_address - low + j] == b[segs[i].file_offset + j]
}

/// The first `n` segments' file bytes all sit at their destinations.
pub open spec fn copied_upto(
    b: Seq<u8>,
    out: Seq<u8>,
    segs: Seq<ProgramHeader>,
    low: int,
    n: int,
) -> bool {
    forall|i: int, j: int|
        0 <= i < n && i < segs.len() && 0 <= j < segs[i].file_size ==> #[trigger] seg_copied_at(
            b,
            out,
            segs,
            low,
            i,
            j,
        )
}

/// Every segment's file bytes sit at their destinations.
pub open spec fn segments_copied(
    b: Seq<u8>,
    out: Seq<u8>,
    segs: Seq<ProgramHeader>,
    low: int,
) -> bool {
    copied_upto(b, out, segs, low, segs.len() as int)
}

/// Every block position outside all file-backed windows is zero. Together
/// with `segments_copied` this pins every byte of the block: in particular
/// each segment's `[file_size, memory_size)` tail, and every gap between
/// segments, is zero.
pub open spec fn zero_filled(out: Seq<u8>, segs: Seq<ProgramHeader>, low: int) -> bool {
    forall|k: int|
        0 <= k < out.len() && !in_file_window(segs, low, k) ==> #[trigger] out[k] == 0
}

/// The segments' declared memory spans are pairwise disjoint, as the
/// loader's single-contiguous-block layout assumes.
pub open spec fn segs_disjoint(segs: Seq<ProgramHeader>) -> bool {
    forall|i: int, j: int|
        0 <= i < segs.len() && 0 <= j < segs.len() && i != j ==> {
            ||| (#[trigger] segs[i]).virtual_address + segs[i].memory_size
                <= (#[trigger] segs[j]).virtual_address
            ||| segs[j].virtual_address + segs[j].memory_size <= segs[i].virtual_address
        }
}

/// Copies each segment's file bytes to its destination within a fresh block
/// of `span` bytes and zero-fills everything else, the classic bss
/// semantics. When the segments' memory spans are pairwise disjoint, the
/// contract pins every byte of the block.
pub fn copy_segments(buffer: &[u8], segs: &Vec<ProgramHeader>, low: u64, span: usize) -> (out: Vec<
    u8,
>)
    requires
        forall|i: int|
            0 <= i < segs@.len() ==> (#[trigger] segs@[i]).file_size <= segs@[i].memory_size,
        forall|i: int|
            0 <= i < segs@.len() ==> (#[trigger] segs@[i]).file_offset + segs@[i].file_size
                <= buffer@.len(),
        forall|i: int| 0 <= i < segs@.len() ==> low <= (#[trigger] segs@[i]).virtual_address,
        forall|i: int|
            0 <= i < segs@.len() ==> (#[trigger] segs@[i]).virtual_address - low
                + segs@[i].memory_size <= span,
    ensures
        out@.len() == span,
        zero_filled(out@, segs@, low as int),
        segs_disjoint(segs@) ==> segments_copied(buffer@, out@, segs@, low as int),
{
    let n: usize = buffer.len();
    let mut out: Vec<u8> = Vec::new();
    while out.len() < span
        invariant
            out@.len() <= span,
            forall|k: int| 0 <= k < out@.len() ==> #[trigger] out@[k] == 0,
        decreases span - out@.len(),
    {
        out.push(0);
    }
    let mut i: usize = 0;
    while i < segs.len()
        invariant
            n == buffer@.len(),
            forall|m: int|
                0 <= m < segs@.len() ==> (#[trigger] segs@[m]).file_size <= segs@[m].memory_size,
            forall|m: int|
                0 <= m < segs@.len() ==> (#[trigger] segs@[m]).file_offset + segs@[m].file_size
                    <= buffer@.len(),
            forall|m: int| 0 <= m < segs@.len() ==> low <= (#[trigger] segs@[m]).virtual_address,
            forall|m: int|
                0 <= m < segs@.len() ==> (#[trigger] segs@[m]).virtual_address - low
                    + segs@[m].memory_size <= span,
            i <= segs@.len(),
            out@.len() == span,
            forall|k: int|
                0 <= k < span && !in_file_window_upto(segs@, low as int, i as int, k)
                    ==> #[trigger] out@[k] == 0,
            segs_disjoint(segs@) ==> copied_upto(buffer@, out@, segs@, low as int, i as int),
        decreases segs@.len() - i,
    {
        let seg = segs[i];
        let dst: usize = (seg.virtual_address - low) as usize;
        let src: usize = seg.file_offset as usize;
        let file_size: usize = seg.file_size as usize;
        let memory_size: usize = seg.memory_size as usize;
        let mut j: usize = 0;
        while j < file_size
            invariant
                n == buffer@.len(),
                i < segs@.len(),
                seg == segs@[i as int],
                forall|m: int|
                    0 <= m < segs@.len() ==> (#[trigger] segs@[m]).file_size
                        <= segs@[m].memory_size,
                forall|m: int|
                    0 <= m < segs@.len() ==> (#[trigger] segs@[m]).file_offset
                        + segs@[m].file_size <= buffer@.len(),
                forall|m: int|
                    0 <= m < segs@.len() ==> low <= (#[trigger] segs@[m]).virtual_address,
                forall|m: int|
                    0 <= m < segs@.len() ==> (#[trigger] segs@[m]).virtual_address - low
                        + segs@[m].memory_size <= span,
                dst == seg.virtual_address - low,
                src == seg.file_offset,
                file_size == seg.file_size,
                memory_size == seg.memory_size,
                j <= file_size,
                out@.len() == span,
                forall|k: int|
                    0 <= k < span && !in_file_window_upto(segs@, low as int, i + 1, k)
                        ==> #[trigger] out@[k] == 0,
                forall|jj: int|
                    0 <= jj < j ==> #[trigger] seg_copied_at(
                        buffer@,
                        out@,
                        segs@,
                        low as int,
                        i as int,
                        jj,
                    ),
                segs_disjoint(segs@) ==> copied_upto(buffer@, out@, segs@, low as int, i as int),
            decreases file_size - j,
        {
            let byte: u8 = *vstd::slice::slice_index_get(buffer, src + j);
            let ghost out0 = out@;
            out[dst + j] = byte;
            proof {
                assert(in_file_window_upto(segs@, low as int, i + 1, dst + j));
                assert forall|jj: int| 0 <= jj < j + 1 implies #[trigger] seg_copied_at(
                    buffer@,
                    out@,
                    segs@,
                    low as int,
                    i as int,
                    jj,
                ) by {
                    if jj < j {
                        assert(seg_copied_at(buffer@, out0, segs@, low as int, i as int, jj));
                    }
                }
                assert(segs_disjoint(segs@) ==> copied_upto(
                    buffer@,
                    out@,
                    segs@,
                    low as int,
                    i as int,
                )) by {
                    if segs_disjoint(segs@) {
                        assert forall|m: int, jj: int|
                            0 <= m < i && m < segs@.len() && 0 <= jj < segs@[m].file_size
                                implies #[trigger] seg_copied_at(
                            buffer@,
                            out@,
                            segs@,
                            low as int,
                            m,
                            jj,
                        ) by {
                            assert(seg_copied_at(buffer@, out0, segs@, low as int, m, jj));
                            assert(segs@[m].virtual_address + segs@[m].memory_size
                                <= segs@[i as int].virtual_address || segs@[i as int].virtual_address
                                + segs@[i as int].memory_size <= segs@[m].virtual_address);
                        }
                    }
                }
            }
            j = j + 1;
        }
        let mut j: usize = file_size;
        while j < memory_size
            invariant
                n == buffer@.len(),
                i < segs@.len(),
                seg == segs@[i as int],
                forall|m: int|
                    0 <= m < segs@.len() ==> (#[trigger] segs@[m]).file_size
                        <= segs@[m].memory_size,
                forall|m: int|
                    0 <= m < segs@.len() ==> (#[trigger] segs@[m]).file_offset
                        + segs@[m].file_size <= buffer@.len(),
                forall|m: int|
                    0 <= m < segs@.len() ==> low <= (#[trigger] segs@[m]).virtual_address,
                forall|m: int|
                    0 <= m < segs@.len() ==> (#[trigger] segs@[m]).virtual_address - low
                        + segs@[m].memory_size <= span,
                dst == seg.virtual_address - low,
                src == seg.file_offset,
                file_size == seg.file_size,
                memory_size == seg.memory_size,
                file_size <= j <= memory_size,
                out@.len() == span,
                forall|k: int|
                    0 <= k < span && !in_file_window_upto(segs@, low as int, i + 1, k)
                        ==> #[trigger] out@[k] == 0,
                forall|jj: int|
                    0 <= jj < file_size ==> #[trigger] seg_copied_at(
                        buffer@,
                        out@,
                        segs@,
                        low as int,
                        i as int,
                        jj,
                    ),
                segs_disjoint(segs@) ==> copied_upto(buffer@, out@, segs@, low as int, i as int),
            decreases memory_size - j,
        {
            let ghost out0 = out@;
            out[dst + j] = 0;
            proof {
                assert forall|jj: int| 0 <= jj < file_size implies #[trigger] seg_copied_at(
                    buffer@,
                    out@,
                    segs@,
                    low as int,
                    i as int,
                    jj,
                ) by {
                    assert(seg_copied_at(buffer@, out0, segs@, low as int, i as int, jj));
                }
                assert(segs_disjoint(segs@) ==> copied_upto(
                    buffer@,
                    out@,
                    segs@,
                    low as int,
                    i as int,
                )) by {
                    if segs_disjoint(segs@) {
                        assert forall|m: int, jj: int|
                            0 <= m < i && m < segs@.len() && 0 <= jj < segs@[m].file_size
                                implies #[trigger] seg_copied_at(
                            buffer@,
                            out@,
                            segs@,
                            low as int,
                            m,
                            jj,
                        ) by {
                            assert(seg_copied_at(buffer@, out0, segs@, low as int, m, jj));
                            assert(segs@[m].virtual_address + segs@[m].memory_size
                                <= segs@[i as int].virtual_address || segs@[i as int].virtual_address
                                + segs@[i as int].memory_size <= segs@[m].virtual_address);
                        }
                    }
                }
            }
            j = j + 1;
        }
        proof {
            assert(segs_disjoint(segs@) ==> copied_upto(
                buffer@,
                out@,
                segs@,
                low as int,
                i + 1,
            )) by {
                if segs_disjoint(segs@) {
                    assert forall|m: int, jj: int|
                        0 <= m < i + 1 && m < segs@.len() && 0 <= jj < segs@[m].file_size
                            implies #[trigger] seg_copied_at(
                        buffer@,
                        out@,
                        segs@,
                        low as int,
                        m,
                        jj,
                    ) by {
                        if m < i {
                            assert(copied_upto(buffer@, out@, segs@, low as int, i as int));
                        }
                    }
                }
            }
        }
        i = i + 1;
    }
    out
}

/// The bss zero-fill law: for disjoint segments, every byte of segment
/// `i`'s declared tail `[file_size, memory_size)` is zero at its
/// destination.
pub proof fn lemma_bss_zero(
    out: Seq<u8>,
    segs: Seq<ProgramHeader>,
    low: int,
    i: int,
    j: int,
)
    requires
        zero_filled(out, segs, low),
        segs_disjoint(segs),
        forall|m: int|
            0 <= m < segs.len() ==> (#[trigger] segs[m]).file_size <= segs[m].memory_size,
        0 <= i < segs.len(),
        segs[i].file_size <= j < segs[i].memory_size,
        low <= segs[i].virtual_address,
        segs[i].virtual_address - low + segs[i].memory_size <= out.len(),
    ensures
        out[segs[i].virtual_address - low + j] == 0,
{
    let k = segs[i].virtual_address - low + j;
    assert(!in_file_window(segs, low, k)) by {
        if in_file_window(segs, low, k) {
            let m = choose|m: int|
                0 <= m < segs.len() && (#[trigger] segs[m]).virtual_address - low <= k
                    < segs[m].virtual_address - low + segs[m].file_size;
            if m == i {
                assert(false);
            } else {
                assert(segs[i].virtual_address + segs[i].memory_size <= segs[m].virtual_address
                    || segs[m].virtual_address + segs[m].memory_size
                    <= segs[i].virtual_address);
                assert(segs[m].file_size <= segs[m].memory_size);
                assert(false);
            }
        }
    }
}

/// The round-trip law: a fully file-backed segment reproduces its source
/// bytes exactly at its destination.
pub proof fn lemma_round_trip(
    b: Seq<u8>,
    out: Seq<u8>,
    segs: Seq<ProgramHeader>,
    low: int,
    i: int,
)
    requires
        segments_copied(b, out, segs, low),
        0 <= i < segs.len(),
        segs[i].file_size == segs[i].memory_size,
    ensures
        forall|j: int|
            0 <= j < segs[i].file_size ==> #[trigger] seg_copied_at(b, out, segs, low, i, j)
                && out[segs[i].virtual_address - low + j] == b[segs[i].file_offset + j],
{
    assert forall|j: int| 0 <= j < segs[i].file_size implies #[trigger] seg_copied_at(
        b,
        out,
        segs,
        low,
        i,
        j,
    ) && out[segs[i].virtual_address - low + j] == b[segs[i].file_offset + j] by {
        assert(seg_copied_at(b, out, segs, low, i, j));
    }
}

} // verus!
