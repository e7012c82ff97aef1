//! The memory manager's allocation record: which physical page ranges are
//! already owned. A range is recorded at most once; asking for a range that
//! overlaps an existing claim fails, which catches double-loads even from a
//! single caller.

use vstd::prelude::*;
use crate::error::LoadError;
use crate::layout::PhysicalRange;
use crate::paging::PAGE_SIZE;

verus! {

/// Two page ranges share at least one byte of physical memory.
pub open spec fn ranges_overlap(a: PhysicalRange, b: PhysicalRange) -> bool {
    &&& a.base < b.base + b.page_count * PAGE_SIZE
    &&& b.base < a.base + a.page_count * PAGE_SIZE
}

/// Tracks the physical page ranges claimed so far during boot.
#[derive(Debug)]
pub struct MemoryManager {
    claims: Vec<PhysicalRange>,
}

impl MemoryManager {
    /// The ranges recorded as allocated, in the order they were claimed.
    pub closed spec fn claims(self) -> Seq<PhysicalRange> {
        self.claims@
    }

    /// No recorded claim overlaps `range`.
    pub open spec fn range_free(self, range: PhysicalRange) -> bool {
        forall|i: int|
            0 <= i < self.claims().len() ==> !ranges_overlap(#[trigger] self.claims()[i], range)
    }

    /// A fresh record with nothing claimed.
    pub fn new() -> (r: Self)
        ensures
            r.claims() == Seq::<PhysicalRange>::empty(),
    {
        MemoryManager { claims: Vec::new() }
    }

    /// How many ranges are recorded.
    pub fn claim_count(&self) -> (n: usize)
        ensures
            n == self.claims().len(),
    {
        self.claims.len()
    }

    /// Records `range` as allocated. Fails, recording nothing, exactly when
    /// the range overlaps one already claimed.
    pub fn allocate(&mut self, range: PhysicalRange) -> (r: Result<(), LoadError>)
        ensures
            (r is Ok) <==> old(self).range_free(range),
            r is Ok ==> final(self).claims() == old(self).claims().push(range),
            r matches Err(e) ==> e == LoadError::AllocationFailure && *final(self) == *old(self),
    {
        let range_end: u128 = range.base as u128 + range.page_count as u128 * PAGE_SIZE as u128;
        let mut i: usize = 0;
        while i < self.claims.len()
            invariant
                i <= self.claims@.len(),
                *self == *old(self),
                range_end == range.base + range.page_count * PAGE_SIZE,
                forall|k: int|
                    0 <= k < i ==> !ranges_overlap(#[trigger] self.claims@[k], range),
            decreases self.claims@.len() - i,
        {
            let c = self.claims[i];
            let c_end: u128 = c.base as u128 + c.page_count as u128 * PAGE_SIZE as u128;
            if (c.base as u128) < range_end && (range.base as u128) < c_end {
                proof {
                    assert(ranges_overlap(old(self).claims()[i as int], range));
                }
                return Err(LoadError::AllocationFailure);
            }
            i = i + 1;
        }
        self.claims.push(range);
        Ok(())
    }
}

} // verus!
