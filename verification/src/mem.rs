//! Utilities for working with memory regions and stacks.

use crate::bindings::{PxMc_t, PxProtectRegion_T, PxProtectType_t, PxStackSpecType_t, PxStackSpec_T};
use core::ops::Range;
use vstd::prelude::*;

verus! {

/// Type export for working with [PxProtectRegion_T]
pub type MemoryRegion = PxProtectRegion_T;

impl MemoryRegion {
    /// Creates a new [`MemoryRegion`], protecting the address range with the
    /// provided protection type.
    pub fn new(range: Range<u32>, protection: PxProtectType_t) -> (region: Self)
        ensures
            region.lowerBound == range.start,
            region.upperBound == range.end,
            region.prot == protection.raw(),
    {
        MemoryRegion { lowerBound: range.start, upperBound: range.end, prot: protection.as_raw() }
    }

    /// Constructs an invalid, zeroed [`MemoryRegion`].
    ///
    /// This is typically used as the terminator or an array of
    /// [`MemoryRegion`] used in PXROS.
    pub fn zeroed() -> (region: Self)
        ensures
            region.lowerBound == 0,
            region.upperBound == 0,
            region.prot == 0,
    {
        MemoryRegion { lowerBound: 0, upperBound: 0, prot: 0 }
    }
}

/// Privileges of a task for accessing peripheral blocks.
#[derive(Clone, Copy, Debug)]
pub enum Privileges {
    /// User 0 mode
    NoDirectAccess,
    /// User 1 mode
    DirectAccess,
    /// Supervisor mode
    Supervisor,
}

impl Privileges {
    /// The number that the kernel knows these privileges by.
    pub open spec fn raw(self) -> u32 {
        match self {
            Privileges::NoDirectAccess => 0,
            Privileges::DirectAccess => 1,
            Privileges::Supervisor => 2,
        }
    }

    /// Returns the number that the kernel knows these privileges by.
    pub fn as_raw(self) -> (raw: u32)
        ensures
            raw == self.raw(),
    {
        match self {
            Privileges::NoDirectAccess => 0,
            Privileges::DirectAccess => 1,
            Privileges::Supervisor => 2,
        }
    }
}

/// Utility type to work with [PxStackSpec_T] definitions
pub type StackSpec = PxStackSpec_T;

/// The size of a machine word, in bytes.
pub const WORD_SIZE: u32 = 4;

impl StackSpec {
    /// Constructs a new default stack spec with size and memory: a stack
    /// of `size` bytes, counted in whole machine words, that is allocated
    /// from `mem_class`.
    pub fn new(size: u32, mem_class: PxMc_t) -> (spec: Self)
        ensures
            spec.stk_type == PxStackSpecType_t::PXStackAlloc,
            spec.stk_size == size / 4,
            spec.stk_src == mem_class.raw(),
    {
        Self {
            stk_type: PxStackSpecType_t::PXStackAlloc,
            stk_size: size / WORD_SIZE,
            stk_src: mem_class.as_raw(),
        }
    }
}

} // verus!
