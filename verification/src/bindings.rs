//! Kernel handles and the kernel types that the memory utilities use.

use core::marker::PhantomData;
use vstd::prelude::*;

verus! {

/// Marker type for a mailbox.
#[derive(Copy, Clone, PartialEq, Eq, Debug)]
pub struct PxMailbox;

/// Marker type for a message.
#[derive(Copy, Clone, PartialEq, Eq, Debug)]
pub struct PxMessage;

/// Marker type for a periodic event.
#[derive(Copy, Clone, PartialEq, Eq, Debug)]
pub struct PxPeriodicEvent;

/// Marker type for a task.
#[derive(Copy, Clone, PartialEq, Eq, Debug)]
pub struct PxTask;

/// Marker type for a memory class.
#[derive(Copy, Clone, PartialEq, Eq, Debug)]
pub struct PxMemoryClass;

/// Marker type for an object pool.
#[derive(Copy, Clone, PartialEq, Eq, Debug)]
pub struct PxMemoryPool;

/// Handle of a mailbox.
#[allow(non_camel_case_types)]
pub type PxMbx_t = PxHandle<PxMailbox>;

/// Handle of a message.
#[allow(non_camel_case_types)]
pub type PxMsg_t = PxHandle<PxMessage>;

/// Handle of a periodic event.
#[allow(non_camel_case_types)]
pub type PxPe_t = PxHandle<PxPeriodicEvent>;

/// Handle of a task.
#[allow(non_camel_case_types)]
pub type PxTask_t = PxHandle<PxTask>;

/// Handle of a memory class.
#[allow(non_camel_case_types)]
pub type PxMc_t = PxHandle<PxMemoryClass>;

/// Handle of an object pool.
#[allow(non_camel_case_types)]
pub type PxOpool_t = PxHandle<PxMemoryPool>;

/// How a memory region is protected.
#[allow(non_camel_case_types)]
#[derive(Copy, Clone, PartialEq, Eq, Debug)]
pub enum PxProtectType_t {
    NoAccessProtection,
    ReadProtection,
    WriteProtection,
    WRProtection,
}

impl PxProtectType_t {
    /// The number that the kernel knows this protection by.
    pub open spec fn raw(self) -> u32 {
        match self {
            PxProtectType_t::NoAccessProtection => 0,
            PxProtectType_t::ReadProtection => 1,
            PxProtectType_t::WriteProtection => 2,
            PxProtectType_t::WRProtection => 3,
        }
    }

    /// Returns the number that the kernel knows this protection by.
    pub fn as_raw(self) -> (raw: u32)
        ensures
            raw == self.raw(),
    {
        match self {
            PxProtectType_t::NoAccessProtection => 0,
            PxProtectType_t::ReadProtection => 1,
            PxProtectType_t::WriteProtection => 2,
            PxProtectType_t::WRProtection => 3,
        }
    }
}

/// A range of addresses and its protection, as the kernel reads it.
#[allow(non_camel_case_types)]
#[allow(non_snake_case)]
#[derive(Copy, Clone, PartialEq, Eq, Debug)]
pub struct PxProtectRegion_T {
    pub lowerBound: u32,
    pub upperBound: u32,
    pub prot: u32,
}

/// Where the stack of a task comes from.
#[allow(non_camel_case_types)]
#[derive(Copy, Clone, PartialEq, Eq, Debug)]
pub enum PxStackSpecType_t {
    PXStackAlloc,
    PXStackFall,
    PXStackDontCheck,
}

/// The stack of a task, as the kernel reads it: its kind, its size in
/// machine words, and the raw handle of the memory class that it is taken
/// from.
#[allow(non_camel_case_types)]
#[derive(Copy, Clone, PartialEq, Eq, Debug)]
pub struct PxStackSpec_T {
    pub stk_type: PxStackSpecType_t,
    pub stk_size: u32,
    pub stk_src: u32,
}

/// Typed wrapper to work with kernel handles.
///
/// The upper 16 bits are the error code, the lower 16 bits are the kernel
/// object ID.
#[derive(PartialEq, Eq, Debug)]
#[must_use]
pub struct PxHandle<T> {
    inner: u32,
    marker: PhantomData<T>,
}

impl<T: Copy + Clone> Clone for PxHandle<T> {
    fn clone(&self) -> (copy: Self)
        ensures
            copy == *self,
    {
        Self { inner: self.inner, marker: PhantomData }
    }
}

impl<T: Copy + Clone> Copy for PxHandle<T> {

}

/// The bit of the object ID that marks a handle as invalid.
pub const INVALID_FLAG: u16 = 0x8000;

impl<T: Copy + Clone> PxHandle<T> {
    /// The raw value of the handle.
    pub closed spec fn raw(self) -> u32 {
        self.inner
    }

    /// Creates a new handle from a raw ID.
    pub fn from_raw(raw: u32) -> (handle: Self)
        ensures
            handle.raw() == raw,
    {
        Self { inner: raw, marker: PhantomData }
    }

    /// Returns the handle as raw u32.
    pub fn as_raw(&self) -> (raw: u32)
        ensures
            raw == self.raw(),
    {
        self.inner
    }

    /// Creates a new invalid handle: no error, and the invalid bit set in
    /// the object ID.
    pub fn invalid() -> (handle: Self)
        ensures
            handle.raw() == 0x8000,
    {
        Self { inner: 0x8000, marker: PhantomData }
    }

    /// Returns the id of the handle: its lower 16 bits.
    pub fn id(&self) -> (id: u16)
        ensures
            id == self.raw() % 0x1_0000,
    {
        let raw: u32 = self.inner;
        let low: u32 = raw & 0xFFFF;
        assert(low == raw % 0x1_0000) by (bit_vector)
            requires
                low == raw & 0xFFFF,
        ;
        low as u16
    }

    /// Checks if the handle is valid: whether the invalid bit of its object
    /// ID is clear.
    pub fn is_valid(&self) -> (valid: bool)
        ensures
            valid == ((self.raw() / 0x8000) % 2 == 0),
    {
        let raw: u32 = self.inner;
        let flag: u32 = raw & 0x8000;
        assert((flag == 0) == ((raw / 0x8000) % 2 == 0)) by (bit_vector)
            requires
                flag == raw & 0x8000,
        ;
        flag == 0
    }
}

} // verus!
