use bios_bootloader::gdt::{
    DescriptorFlags, DescriptorTablePointer, GtdLongMode, GtdProtectedMode, CODE_SELECTOR,
    DATA_SELECTOR, DEFAULT_OP_SIZE, EXECUTABLE, LONG_MODE, PRESENT,
};
use bios_bootloader::mode::{
    aligned_stack, enter_long_mode_and_jump_to_stage_3, enter_unreal_mode,
    protected_mode_jump_to_stage2, with_long_mode_enabled, with_pae_enabled,
    with_paging_enabled, with_protection_enabled, CpuMode, CpuState, LoadedTable, Step,
};
use bios_bootloader::paging::{create_mappings, init, PageTable};
use bios_bootloader::privilege_level::PrivilegeLevel;
use bios_bootloader::segmentation::SegmentSelector;

#[test]
fn protected_mode_table_holds_flat_segments() {
    let table = GtdProtectedMode::new();
    assert_eq!(table.zero, 0);
    assert_eq!(table.code, 0x00CF_9A00_0000_FFFF);
    assert_eq!(table.data, 0x00CF_9200_0000_FFFF);
    assert_eq!(table.pointer(0x7000), DescriptorTablePointer { limit: 23, base: 0x7000 });
    assert_eq!(DescriptorFlags::kernel_code32().bits(), table.code);
    assert_eq!(DescriptorFlags::kernel_data().bits(), table.data);
}

#[test]
fn long_mode_table_holds_64_bit_segments() {
    let table = GtdLongMode::new();
    assert_eq!(table.zero, 0);
    assert_eq!(table.code, (1 << 44) | (1 << 47) | (1 << 41) | (1 << 40) | (1 << 43) | (1 << 53));
    assert_eq!(table.data, (1 << 44) | (1 << 47) | (1 << 41) | (1 << 40));
    assert_eq!(table.code & DEFAULT_OP_SIZE, 0);
    assert_eq!(table.code & LONG_MODE, LONG_MODE);
    assert_eq!(table.pointer(0x9000), DescriptorTablePointer { limit: 23, base: 0x9000 });
}

#[test]
fn descriptor_flags_combine() {
    let code = DescriptorFlags::kernel_code64();
    assert!(code.contains(DescriptorFlags::from_bits_truncate(PRESENT | EXECUTABLE)));
    assert!(!code.contains(DescriptorFlags::from_bits_truncate(DEFAULT_OP_SIZE)));
    assert_eq!(
        DescriptorFlags::kernel_data().union(DescriptorFlags::from_bits_truncate(EXECUTABLE)),
        DescriptorFlags::kernel_code32()
    );
    assert_eq!(DescriptorFlags::from_bits_truncate(u64::MAX).bits(), u64::MAX);
    assert_eq!(DescriptorFlags::kernel_data64().bits(), 0x0000_9300_0000_0000);
}

#[test]
fn selectors_name_the_table_entries() {
    assert_eq!(SegmentSelector::new(1, PrivilegeLevel::Ring0).0, CODE_SELECTOR);
    assert_eq!(SegmentSelector::new(2, PrivilegeLevel::Ring0).0, DATA_SELECTOR);
}

#[test]
fn page_tables_map_ten_gibibytes_onto_themselves() {
    let tables = create_mappings(0x2000, 0x10_0000);
    assert_eq!(tables.level4.entries[0], 0x2003);
    assert!(tables.level4.entries[1..].iter().all(|entry| *entry == 0));
    for i in 0..10 {
        assert_eq!(tables.level3.entries[i], 0x10_0003 + 0x1000 * i as u64);
    }
    assert!(tables.level3.entries[10..].iter().all(|entry| *entry == 0));
    assert_eq!(tables.level2.len(), 10);
    for (i, table) in tables.level2.iter().enumerate() {
        for (j, entry) in table.entries.iter().enumerate() {
            assert_eq!(*entry, (i as u64) * 0x4000_0000 + (j as u64) * 0x20_0000 + 0x83);
        }
    }
    assert_eq!(tables.level2[0].entries[0], 0x83);
    assert_eq!(tables.level2[9].entries[511], 0x2_7fe0_0083);
    let again = init(0x2000, 0x10_0000);
    assert_eq!(again.level3.entries, tables.level3.entries);
    assert_eq!(PageTable::empty().entries, [0u64; 512]);
}

#[test]
fn control_register_values() {
    assert_eq!(with_protection_enabled(0x10), 0x11);
    assert_eq!(with_protection_enabled(0x11), 0x11);
    assert_eq!(with_paging_enabled(0x11), 0x8000_0011);
    assert_eq!(with_pae_enabled(0), 0x20);
    assert_eq!(with_long_mode_enabled(1), 0x101);
    assert_eq!(aligned_stack(0x7bff), 0x7b00);
    assert_eq!(aligned_stack(0x7b00), 0x7b00);
    assert_eq!(aligned_stack(0xff), 0);
}

#[test]
fn boot_passes_through_the_modes() {
    let boot = CpuState::at_boot();
    assert_eq!(boot.mode, CpuMode::Real);
    let unreal = boot.run(&enter_unreal_mode()).unwrap();
    assert_eq!(
        unreal,
        CpuState {
            mode: CpuMode::Unreal,
            table: LoadedTable::Protected,
            flat_segments: true,
            ..boot
        }
    );
    let protected = unreal.run(&protected_mode_jump_to_stage2()).unwrap();
    assert_eq!(
        protected,
        CpuState { mode: CpuMode::Protected32, interrupts_enabled: false, jumped: true, ..unreal }
    );
    let long = protected.run(&enter_long_mode_and_jump_to_stage_3()).unwrap();
    assert_eq!(
        long,
        CpuState {
            mode: CpuMode::Long64,
            table: LoadedTable::Long,
            page_tables_installed: true,
            pae_enabled: true,
            long_mode_enabled: true,
            paging_enabled: true,
            ..protected
        }
    );
}

#[test]
fn steps_out_of_order_are_refused() {
    let boot = CpuState::at_boot();
    assert_eq!(boot.apply(Step::SetProtectionEnable), None);
    assert_eq!(boot.apply(Step::LoadProtectedTable), None);
    assert_eq!(boot.apply(Step::FarJump32), None);
    assert_eq!(boot.apply(Step::RestoreSegments), None);
    assert_eq!(boot.run(&protected_mode_jump_to_stage2()), None);
    assert_eq!(boot.run(&enter_long_mode_and_jump_to_stage_3()), None);
    assert_eq!(boot.run(&[]), Some(boot));
    let unreal = boot.run(&enter_unreal_mode()).unwrap();
    let protected = unreal.run(&protected_mode_jump_to_stage2()).unwrap();
    assert_eq!(protected.apply(Step::ClearProtectionEnable), None);
    assert_eq!(protected.apply(Step::EnableInterrupts), None);
    assert_eq!(protected.apply(Step::EnablePaging), None);
    assert_eq!(protected.apply(Step::FarJump64), None);
    assert!(protected.permits(Step::EnablePae));
    let installed = protected.apply(Step::InstallPageTables).unwrap();
    assert_eq!(installed.apply(Step::InstallPageTables), None);
    let long = protected.run(&enter_long_mode_and_jump_to_stage_3()).unwrap();
    assert_eq!(long.apply(Step::ClearProtectionEnable), None);
    assert_eq!(long.apply(Step::SetProtectionEnable), None);
    assert_eq!(long.apply(Step::DisableInterrupts), Some(long));
    let no_flat = boot
        .run(&[
            Step::DisableInterrupts,
            Step::LoadProtectedTable,
            Step::SetProtectionEnable,
            Step::ClearProtectionEnable,
        ])
        .unwrap();
    assert_eq!(no_flat.mode, CpuMode::Real);
}
