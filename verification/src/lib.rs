//! Locating the build identifier embedded in a program's loaded image.
//!
//! A linker normally records a stable byte sequence (the "build id") inside
//! each object it produces.  Debuggers and caches use it to tell one link of
//! a binary from another.  Where that record sits, and how it is laid out,
//! depends on the object format: segment-embedded note records, a list of
//! load commands after the module header, or a debug-directory table.
//!
//! This crate holds the format walkers themselves: bounds-checked parsers
//! over byte regions and over plain module descriptors, each with a proved
//! contract.  Reading the mapped image of the running process, and asking
//! the loader which modules it mapped, is platform work that a thin
//! unverified shell performs before handing plain bytes to these walkers.

pub mod align;
pub mod constparse;
pub mod elf;
pub mod mach;
pub mod region;
pub mod windows;
