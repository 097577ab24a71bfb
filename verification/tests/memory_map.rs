use bios_bootloader::boot_info::E820MemoryRegion;
use bios_bootloader::memory_map::{
    query_memory_map, read_reply, E820Reply, MemoryMapCollector, MemoryMapError, Progress,
    E820_MAGIC_NUMBER,
};
use bios_bootloader::stage3::{max_physical_address, sort_memory_map};

fn reply(next: u32, start: u64, len: u64, kind: u32, attributes: u32, written: u32) -> E820Reply {
    let mut buffer = [0u8; 24];
    buffer[0..8].copy_from_slice(&start.to_le_bytes());
    buffer[8..16].copy_from_slice(&len.to_le_bytes());
    buffer[16..20].copy_from_slice(&kind.to_le_bytes());
    buffer[20..24].copy_from_slice(&attributes.to_le_bytes());
    E820Reply { signature: E820_MAGIC_NUMBER, next_offset: next, written, buffer }
}

fn region(start: u64, len: u64, kind: u32, attributes: u32) -> E820MemoryRegion {
    E820MemoryRegion { start_addr: start, len, region_type: kind, acpi_extended_attributes: attributes }
}

#[test]
fn three_entry_map_is_collected_without_empty_regions() {
    let firmware = [
        reply(1, 0, 0x9fc00, 1, 0, 20),
        reply(2, 0x9fc00, 0, 2, 0, 20),
        reply(0, 0x10_0000, 0x7ee0_0000, 1, 1, 24),
    ];
    assert_eq!(
        query_memory_map(&firmware, 100),
        Ok(vec![region(0, 0x9fc00, 1, 0), region(0x10_0000, 0x7ee0_0000, 1, 1)])
    );
}

#[test]
fn continuation_numbers_are_followed() {
    let firmware = [
        reply(3, 0x3000, 1, 1, 0, 20),
        reply(0, 0x1000, 2, 2, 7, 24),
        reply(1, 0x2000, 3, 3, 9, 20),
        reply(2, 0x4000, 4, 4, 0, 0),
    ];
    assert_eq!(
        query_memory_map(&firmware, 100),
        Ok(vec![region(0x3000, 1, 1, 0), region(0x2000, 3, 3, 0), region(0x1000, 2, 2, 7)])
    );
    assert_eq!(query_memory_map(&[reply(0, 5, 6, 1, 0, 0)], 100), Ok(Vec::new()));
}

#[test]
fn collection_fails_on_bad_replies() {
    let mut unsigned = reply(0, 0, 1, 1, 0, 20);
    unsigned.signature = 0x534D_4151;
    assert_eq!(
        query_memory_map(&[reply(1, 0, 1, 1, 0, 20), unsigned], 100),
        Err(MemoryMapError::BadSignature)
    );
    assert_eq!(query_memory_map(&[], 100), Err(MemoryMapError::BadSignature));
    assert_eq!(
        query_memory_map(&[reply(5, 0, 1, 1, 0, 20)], 100),
        Err(MemoryMapError::BadSignature)
    );
    for written in [1u32, 8, 16, 19, 25, 1000] {
        assert_eq!(
            query_memory_map(&[reply(0, 0, 1, 1, 0, written)], 100),
            Err(MemoryMapError::MalformedRecord)
        );
    }
}

#[test]
fn circling_firmware_is_given_up() {
    let firmware = [reply(1, 0, 0, 1, 0, 20), reply(2, 0, 0, 1, 0, 20), reply(1, 0, 0, 1, 0, 20)];
    assert_eq!(query_memory_map(&firmware, 100), Err(MemoryMapError::TooManyQueries));
    let firmware = [reply(1, 0, 5, 1, 0, 20), reply(1, 0, 5, 1, 0, 20)];
    assert_eq!(query_memory_map(&firmware, 100), Err(MemoryMapError::TooManyQueries));
}

#[test]
fn map_holds_no_more_than_its_capacity() {
    let firmware = [reply(1, 0, 1, 1, 0, 20), reply(2, 1, 1, 1, 0, 20), reply(0, 2, 1, 1, 0, 20)];
    assert_eq!(query_memory_map(&firmware, 2), Err(MemoryMapError::MapFull));
    assert_eq!(query_memory_map(&firmware, 3).map(|regions| regions.len()), Ok(3));
    assert_eq!(query_memory_map(&firmware, 0), Err(MemoryMapError::MapFull));
}

#[test]
fn replies_are_read() {
    assert_eq!(read_reply(&reply(1, 2, 3, 4, 5, 24)), Ok(Some(region(2, 3, 4, 5))));
    assert_eq!(read_reply(&reply(1, 2, 3, 4, 5, 20)), Ok(Some(region(2, 3, 4, 0))));
    assert_eq!(read_reply(&reply(1, 2, 3, 4, 5, 23)), Ok(Some(region(2, 3, 4, 0))));
    assert_eq!(read_reply(&reply(1, 2, 0, 4, 5, 24)), Ok(None));
    assert_eq!(read_reply(&reply(1, 2, 3, 4, 5, 0)), Ok(None));
    assert_eq!(
        read_reply(&reply(
            0,
            0x0102_0304_0506_0708,
            0x1112_1314_1516_1718,
            0x2122_2324,
            0x3132_3334,
            24
        )),
        Ok(Some(region(0x0102_0304_0506_0708, 0x1112_1314_1516_1718, 0x2122_2324, 0x3132_3334)))
    );
}

#[test]
fn collector_takes_replies_one_by_one() {
    let mut collector = MemoryMapCollector::new(1, 3);
    assert_eq!(collector.record(&reply(9, 0, 0, 1, 0, 20)), Ok(Progress::Continue(9)));
    assert_eq!(collector.queries_left, 2);
    assert_eq!(collector.record(&reply(4, 0x1000, 16, 1, 0, 20)), Ok(Progress::Continue(4)));
    assert_eq!(collector.regions, vec![region(0x1000, 16, 1, 0)]);
    assert_eq!(collector.record(&reply(5, 0x2000, 16, 1, 0, 20)), Err(MemoryMapError::MapFull));
    assert_eq!(collector.queries_left, 1);
    assert_eq!(collector.record(&reply(0, 0x2000, 0, 1, 0, 20)), Ok(Progress::Done));
    assert_eq!(collector.record(&reply(0, 0x2000, 0, 1, 0, 20)), Err(MemoryMapError::TooManyQueries));
    assert_eq!(collector.regions, vec![region(0x1000, 16, 1, 0)]);
}

#[test]
fn memory_map_is_sorted_by_start_address() {
    let mut regions = vec![
        region(0x10_0000, 5, 1, 0),
        region(0, 0x9fc00, 1, 0),
        region(0xfffc_0000, 0x4_0000, 2, 0),
        region(0x9fc00, 0x400, 2, 0),
    ];
    sort_memory_map(&mut regions);
    assert_eq!(
        regions,
        vec![
            region(0, 0x9fc00, 1, 0),
            region(0x9fc00, 0x400, 2, 0),
            region(0x10_0000, 5, 1, 0),
            region(0xfffc_0000, 0x4_0000, 2, 0),
        ]
    );
    let mut none: Vec<E820MemoryRegion> = Vec::new();
    sort_memory_map(&mut none);
    assert!(none.is_empty());
}

#[test]
fn highest_address_is_clamped_to_four_gibibytes() {
    assert_eq!(max_physical_address(&[]), None);
    assert_eq!(
        max_physical_address(&[region(0, 0x9fc00, 1, 0), region(0x10_0000, 0x7ee0_0000, 1, 0)]),
        Some(0x7ef0_0000)
    );
    assert_eq!(
        max_physical_address(&[region(0x10_0000, 0x7ee0_0000, 1, 0), region(0, 0x9fc00, 1, 0)]),
        Some(0x7ef0_0000)
    );
    assert_eq!(
        max_physical_address(&[region(0, 0x9fc00, 1, 0), region(0x1_0000_0000, 0x1000, 1, 0)]),
        Some(0x1_0000_0000)
    );
    assert_eq!(max_physical_address(&[region(0xffff_f000, 0x1000, 1, 0)]), Some(0x1_0000_0000));
    assert_eq!(max_physical_address(&[region(0xffff_f000, 0xfff, 1, 0)]), Some(0xffff_ffff));
    assert_eq!(max_physical_address(&[region(u64::MAX, u64::MAX, 1, 0)]), Some(0x1_0000_0000));
    assert_eq!(max_physical_address(&[region(0, 0, 1, 0)]), Some(0));
}
