//! Fatal load errors.
//!
//! Every fatal path surfaces a distinguishable cause; symbol-name lookups
//! that miss are recovered locally with a placeholder and are not errors.

use vstd::prelude::*;

verus! {

/// Why a kernel image could not be loaded. Each variant is unrecoverable at
/// this stage of boot: the caller aborts the boot attempt with a diagnostic.
#[derive(Clone, Copy, Debug, PartialEq, Eq, Structural)]
pub enum LoadError {
    /// The buffer is not a structurally valid ELF64 container: bad magic,
    /// truncated header, a program/section/symbol table out of bounds, a
    /// loadable segment whose file range leaves the buffer or whose declared
    /// memory size is smaller than its file size, or no loadable segment.
    MalformedImage,
    /// The container is recognisable but not for this platform: wrong word
    /// size, wrong byte order, or wrong machine type.
    UnsupportedImage,
    /// The image is well formed but violates the higher-half-only placement
    /// policy: its entry point or lowest loadable virtual address lies below
    /// the fixed kernel virtual offset.
    PolicyViolation,
    /// The exact physical range the image requires is already claimed.
    AllocationFailure,
}

impl LoadError {
    /// A human-readable diagnostic naming the violated invariant.
    pub fn describe(&self) -> (r: &'static str)
        ensures
            (*self is MalformedImage) ==> r@ == "malformed image"@,
            (*self is UnsupportedImage) ==> r@ == "unsupported image"@,
            (*self is PolicyViolation) ==> r@ == "only higher-half kernels"@,
            (*self is AllocationFailure) ==> r@ == "kernel physical range unavailable"@,
    {
        match self {
            LoadError::MalformedImage => "malformed image",
            LoadError::UnsupportedImage => "unsupported image",
            LoadError::PolicyViolation => "only higher-half kernels",
            LoadError::AllocationFailure => "kernel physical range unavailable",
        }
    }
}

} // verus!
