use pxros::bindings::{
    PxMc_t, PxOpool_t, PxProtectType_t, PxStackSpecType_t, PxTask_t, INVALID_FLAG,
};
use pxros::mem::{MemoryRegion, Privileges, StackSpec, WORD_SIZE};

#[test]
fn memory_region_new_keeps_the_range_and_the_protection() {
    let region = MemoryRegion::new(0x7000_0000..0x7000_1000, PxProtectType_t::WRProtection);
    assert_eq!(region.lowerBound, 0x7000_0000);
    assert_eq!(region.upperBound, 0x7000_1000);
    assert_eq!(region.prot, 3);
    let region = MemoryRegion::new(5..1, PxProtectType_t::ReadProtection);
    assert_eq!((region.lowerBound, region.upperBound, region.prot), (5, 1, 1));
}

#[test]
fn memory_region_zeroed_is_all_zero() {
    let region = MemoryRegion::zeroed();
    assert_eq!((region.lowerBound, region.upperBound, region.prot), (0, 0, 0));
    assert_eq!(region, MemoryRegion::new(0..0, PxProtectType_t::NoAccessProtection));
}

#[test]
fn protections_have_their_numbers() {
    assert_eq!(PxProtectType_t::NoAccessProtection.as_raw(), 0);
    assert_eq!(PxProtectType_t::ReadProtection.as_raw(), 1);
    assert_eq!(PxProtectType_t::WriteProtection.as_raw(), 2);
    assert_eq!(PxProtectType_t::WRProtection.as_raw(), 3);
}

#[test]
fn privileges_have_their_numbers() {
    assert_eq!(Privileges::NoDirectAccess.as_raw(), 0);
    assert_eq!(Privileges::DirectAccess.as_raw(), 1);
    assert_eq!(Privileges::Supervisor.as_raw(), 2);
}

#[test]
fn stack_spec_new_counts_the_size_in_words() {
    let spec = StackSpec::new(1024, PxMc_t::from_raw(0x8001));
    assert_eq!(spec.stk_type, PxStackSpecType_t::PXStackAlloc);
    assert_eq!(spec.stk_size, 256);
    assert_eq!(spec.stk_src, 0x8001);
    assert_eq!(StackSpec::new(7, PxMc_t::from_raw(0)).stk_size, 1);
    assert_eq!(StackSpec::new(3, PxMc_t::from_raw(0)).stk_size, 0);
    assert_eq!(StackSpec::new(u32::MAX, PxMc_t::from_raw(0)).stk_size, 0x3FFF_FFFF);
    assert_eq!(WORD_SIZE, 4);
}

#[test]
fn a_handle_keeps_its_raw_value() {
    assert_eq!(PxTask_t::from_raw(0x0012_0034).as_raw(), 0x0012_0034);
    assert_eq!(PxOpool_t::from_raw(u32::MAX).as_raw(), u32::MAX);
    let handle = PxTask_t::from_raw(7);
    let copy = handle;
    assert_eq!(handle, copy);
    assert_eq!(handle.clone().as_raw(), 7);
}

#[test]
fn the_id_of_a_handle_is_its_lower_half() {
    assert_eq!(PxTask_t::from_raw(0x0012_0034).id(), 0x0034);
    assert_eq!(PxTask_t::from_raw(0xFFFF_0000).id(), 0);
    assert_eq!(PxTask_t::from_raw(0x0001_FFFF).id(), 0xFFFF);
}

#[test]
fn a_handle_is_valid_while_the_invalid_bit_is_clear() {
    assert!(PxTask_t::from_raw(0).is_valid());
    assert!(PxTask_t::from_raw(0x7FFF).is_valid());
    assert!(PxTask_t::from_raw(0xFFFF_7FFF).is_valid());
    assert!(!PxTask_t::from_raw(0x8000).is_valid());
    assert!(!PxTask_t::from_raw(0x0001_8001).is_valid());
}

#[test]
fn the_invalid_handle_has_no_error_and_the_invalid_bit() {
    let handle = PxMc_t::invalid();
    assert_eq!(handle.as_raw(), 0x8000);
    assert_eq!(handle.id(), INVALID_FLAG);
    assert!(!handle.is_valid());
}
