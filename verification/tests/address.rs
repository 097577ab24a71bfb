use bios_bootloader::address::{PhysAddr, PhysAddrNotValid, VirtAddr, VirtAddrNotValid};
use bios_bootloader::privilege_level::PrivilegeLevel;
use bios_bootloader::segmentation::SegmentSelector;

#[test]
fn phys_addr_truncation_keeps_bit_52() {
    assert_eq!(PhysAddr::new_truncate(0).as_u64(), 0);
    assert_eq!(PhysAddr::new_truncate(1 << 52).as_u64(), 1 << 52);
    assert_eq!(PhysAddr::new_truncate(0xffff_ffff_ffff_ffff).as_u64(), 1 << 52);
    assert_eq!(PhysAddr::new_truncate(0x1234).as_u64(), 0);
}

#[test]
fn phys_addr_try_new_accepts_what_truncation_keeps() {
    assert_eq!(PhysAddr::try_new(0).map(|p| p.as_u64()), Ok(0));
    assert_eq!(PhysAddr::try_new(1 << 52).map(|p| p.as_u64()), Ok(1 << 52));
    assert_eq!(PhysAddr::try_new(0x1000), Err(PhysAddrNotValid(0x1000)));
    assert_eq!(PhysAddr::new(1 << 52), PhysAddr::new_truncate(1 << 52));
}

#[test]
fn virt_addr_try_new_keeps_canonical_addresses() {
    assert_eq!(VirtAddr::try_new(0x1000).map(|v| v.as_u64()), Ok(0x1000));
    assert_eq!(
        VirtAddr::try_new(0xffff_8000_0000_0000).map(|v| v.as_u64()),
        Ok(0xffff_8000_0000_0000)
    );
    assert_eq!(
        VirtAddr::try_new(0x0000_7fff_ffff_ffff).map(|v| v.as_u64()),
        Ok(0x0000_7fff_ffff_ffff)
    );
}

#[test]
fn virt_addr_try_new_sign_extends_bit_47() {
    assert_eq!(
        VirtAddr::try_new(0x0000_8000_0000_0000).map(|v| v.as_u64()),
        Ok(0xffff_8000_0000_0000)
    );
    assert_eq!(VirtAddr::new(0x0000_8000_0000_1234).as_u64(), 0xffff_8000_0000_1234);
}

#[test]
fn virt_addr_try_new_refuses_other_upper_bits() {
    assert_eq!(
        VirtAddr::try_new(0x0001_0000_0000_0000),
        Err(VirtAddrNotValid(0x0001_0000_0000_0000))
    );
    assert_eq!(
        VirtAddr::try_new(0x8000_0000_0000_0000),
        Err(VirtAddrNotValid(0x8000_0000_0000_0000))
    );
}

#[test]
fn virt_addr_truncation_copies_bit_47_upwards() {
    assert_eq!(VirtAddr::new_truncate(0x1234_0000_0000_5678).as_u64(), 0x5678);
    assert_eq!(
        VirtAddr::new_truncate(0x1234_8000_0000_5678).as_u64(),
        0xffff_8000_0000_5678
    );
}

#[test]
fn privilege_level_from_number() {
    assert_eq!(PrivilegeLevel::from_u16(0), PrivilegeLevel::Ring0);
    assert_eq!(PrivilegeLevel::from_u16(1), PrivilegeLevel::Ring1);
    assert_eq!(PrivilegeLevel::from_u16(2), PrivilegeLevel::Ring2);
    assert_eq!(PrivilegeLevel::from_u16(3), PrivilegeLevel::Ring3);
    assert_eq!(PrivilegeLevel::Ring2.as_u16(), 2);
}

#[test]
fn segment_selector_packs_index_and_level() {
    let selector = SegmentSelector::new(2, PrivilegeLevel::Ring3);
    assert_eq!(selector.0, 0x13);
    assert_eq!(selector.index(), 2);
    assert_eq!(selector.privilege_level(), PrivilegeLevel::Ring3);
    assert_eq!(SegmentSelector(0x08).index(), 1);
    assert_eq!(SegmentSelector(0x08).privilege_level(), PrivilegeLevel::Ring0);
    assert_eq!(SegmentSelector(0xffff).index(), 0x1fff);
    assert_eq!(SegmentSelector(0xffff).privilege_level(), PrivilegeLevel::Ring3);
}
