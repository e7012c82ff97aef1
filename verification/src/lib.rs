//! A verified higher-half ELF64 kernel-image loader.
//!
//! The library validates a kernel image, computes the contiguous physical
//! footprint its loadable segments require, records that reservation with a
//! memory manager, produces the loaded bytes (file contents plus zero-filled
//! tails), and extracts the image's symbol table.

pub mod copier;
pub mod elf;
pub mod error;
pub mod layout;
pub mod loader;
pub mod mem;
pub mod paging;
pub mod state;
pub mod validate;
pub mod symbols;
