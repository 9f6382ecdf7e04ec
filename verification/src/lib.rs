//! Wrappers around the PXROS kernel API: the kernel's handle and memory
//! types, the synthesis of safe wrappers for kernel functions, and the
//! documentation comments that are written for them.

pub mod bindings;
pub mod documentation_generator;
pub mod injection;
pub mod json;
pub mod mem;
pub mod pattern;
pub mod safe_wrappers;
pub mod split;
pub mod text;
