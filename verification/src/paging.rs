//! Paging constants of the one supported platform.

use vstd::prelude::*;

verus! {

/// Size in bytes of one physical page frame.
pub const PAGE_SIZE: u64 = 0x1000;

/// Fixed linear offset between the kernel's link-time virtual addresses and
/// the physical addresses the loader places it at. Every loadable address of
/// a well-formed kernel image lies at or above this offset (higher half).
pub const KERNEL_VIRT_OFFSET: u64 = 0xFFFF_FFFF_8000_0000;

} // verus!
