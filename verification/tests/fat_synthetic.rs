use bios_bootloader::disk_access::AlignedArrayBuffer;
use bios_bootloader::fat::bpb::{Bpb, FatType};
use bios_bootloader::fat::chain::{Cluster, Traverser};
use bios_bootloader::fat::directory::{find_in_directory, File};
use bios_bootloader::fat::table::{classify_fat_entry, decode_fat_entry, fat_entry_position, fat_entry_width, FatLookupError, FileFatEntry};
use bios_bootloader::fat::volume::FileSystem;
use bios_bootloader::memory_disk::MemoryDisk;

const SECTORS: usize = 64;

fn boot_sector() -> Vec<u8> {
    let mut sector = vec![0u8; 512];
    sector[11..13].copy_from_slice(&512u16.to_le_bytes());
    sector[13] = 1;
    sector[14..16].copy_from_slice(&1u16.to_le_bytes());
    sector[16] = 1;
    sector[17..19].copy_from_slice(&16u16.to_le_bytes());
    sector[19..21].copy_from_slice(&(SECTORS as u16).to_le_bytes());
    sector[22..24].copy_from_slice(&1u16.to_le_bytes());
    sector[510] = 0x55;
    sector[511] = 0xAA;
    sector
}

fn set_fat12(image: &mut [u8], n: usize, value: u16) {
    let at = 512 + n + n / 2;
    let pair = u16::from_le_bytes([image[at], image[at + 1]]);
    let pair = if n % 2 == 0 { (pair & 0xF000) | (value & 0x0FFF) } else { (pair & 0x000F) | (value << 4) };
    image[at..at + 2].copy_from_slice(&pair.to_le_bytes());
}

fn short_record(name: &[u8; 11], attributes: u8, first_cluster: u32, size: u32) -> [u8; 32] {
    let mut raw = [0u8; 32];
    raw[..11].copy_from_slice(name);
    raw[11] = attributes;
    raw[20..22].copy_from_slice(&((first_cluster >> 16) as u16).to_le_bytes());
    raw[26..28].copy_from_slice(&(first_cluster as u16).to_le_bytes());
    raw[28..32].copy_from_slice(&size.to_le_bytes());
    raw
}

fn long_record(order: u8, name: &str) -> [u8; 32] {
    let mut units = [0xFFFFu16; 13];
    for (i, c) in name.chars().enumerate() {
        units[i] = c as u16;
    }
    if name.chars().count() < 13 {
        units[name.chars().count()] = 0;
    }
    let mut raw = [0u8; 32];
    raw[0] = order;
    raw[11] = 0x0F;
    for (k, unit) in units.iter().enumerate() {
        let at = if k < 5 { 1 + 2 * k } else if k < 11 { 14 + 2 * (k - 5) } else { 28 + 2 * (k - 11) };
        raw[at..at + 2].copy_from_slice(&unit.to_le_bytes());
    }
    raw
}

fn volume(chain: &[(usize, u16)], records: &[[u8; 32]]) -> Vec<u8> {
    let mut image = vec![0u8; SECTORS * 512];
    image[..512].copy_from_slice(&boot_sector());
    set_fat12(&mut image, 0, 0xFF8);
    set_fat12(&mut image, 1, 0xFFF);
    for (n, value) in chain {
        set_fat12(&mut image, *n, *value);
    }
    for (i, record) in records.iter().enumerate() {
        image[1024 + 32 * i..1024 + 32 * (i + 1)].copy_from_slice(record);
    }
    for sector in 3..SECTORS {
        for byte in image[sector * 512..(sector + 1) * 512].iter_mut() {
            *byte = sector as u8;
        }
    }
    image
}

fn open(image: Vec<u8>) -> FileSystem<MemoryDisk> {
    FileSystem::parse(MemoryDisk::new(image, 0x80, 0)).unwrap()
}

#[test]
fn boot_parameters_are_read() {
    let bpb = Bpb::parse(&boot_sector()).unwrap();
    assert_eq!(bpb.bytes_per_sector, 512);
    assert_eq!(bpb.sectors_per_cluster, 1);
    assert_eq!(bpb.reserved_sector_count, 1);
    assert_eq!(bpb.num_fats, 1);
    assert_eq!(bpb.root_entry_count, 16);
    assert_eq!(bpb.total_sectors_16, 64);
    assert_eq!(bpb.fat_size_16, 1);
    assert_eq!(bpb.fat_size_in_sectors(), 1);
    assert_eq!(bpb.total_sector_count(), 64);
    assert_eq!(bpb.first_data_sector_number(), 3);
    assert_eq!(bpb.count_of_clusters(), 61);
    assert_eq!(bpb.fat_type(), FatType::Fat12);
    assert_eq!(bpb.maximum_valid_cluster(), 62);
    assert_eq!(bpb.root_directory_size(), 512);
    assert_eq!(bpb.root_directory_offset(), 1024);
    assert_eq!(bpb.fat_offset(), 512);
    assert_eq!(bpb.data_offset(), 1536);
    assert_eq!(bpb.bytes_per_cluster(), 512);
}

#[test]
fn boot_sector_that_describes_no_volume_is_refused() {
    assert!(Bpb::parse(&boot_sector()[..511]).is_none());
    for (at, value) in [(510usize, 0u8), (511, 0), (13, 0), (12, 0), (12, 3), (14, 0), (22, 0), (19, 2)] {
        let mut sector = boot_sector();
        sector[at] = value;
        if at == 12 {
            sector[11] = 0;
        }
        if at == 14 {
            sector[15] = 0;
        }
        if at == 19 {
            sector[20] = 0;
        }
        assert!(Bpb::parse(&sector).is_none(), "byte {} set to {}", at, value);
    }
}

#[test]
fn three_cluster_file_yields_three_clusters_in_chain_order() {
    let image = volume(
        &[(5, 9), (9, 7), (7, 0xFFF)],
        &[short_record(b"STAGE2  BIN", 0x20, 5, 1300)],
    );
    let mut fs = open(image);
    let mut buffer = AlignedArrayBuffer::<16384> { buffer: [0; 16384] };
    let file = fs.find_file_in_root_dir("STAGE2.BIN", &mut buffer).unwrap();
    assert_eq!(file.first_cluster, 5);
    assert_eq!(file.file_size(), 1300);
    assert_eq!(
        fs.file_clusters(&file),
        Ok(vec![
            Cluster { start_offset: 1536 + 3 * 512, len_bytes: 512 },
            Cluster { start_offset: 1536 + 7 * 512, len_bytes: 512 },
            Cluster { start_offset: 1536 + 5 * 512, len_bytes: 512 },
        ])
    );
}

#[test]
fn circular_chain_is_rejected() {
    let image = volume(
        &[(5, 9), (9, 7), (7, 5)],
        &[short_record(b"STAGE2  BIN", 0x20, 5, 1300)],
    );
    let mut fs = open(image);
    let mut buffer = AlignedArrayBuffer::<16384> { buffer: [0; 16384] };
    let file = fs.find_file_in_root_dir("STAGE2.BIN", &mut buffer).unwrap();
    assert_eq!(fs.file_clusters(&file), Err(FatLookupError::CircularChain));
    let image = volume(&[(4, 4)], &[short_record(b"LOOP       ", 0x20, 4, 1)]);
    let mut fs = open(image);
    let file = fs.find_file_in_root_dir("LOOP", &mut buffer).unwrap();
    assert_eq!(fs.file_clusters(&file), Err(FatLookupError::CircularChain));
}

#[test]
fn chain_through_every_cluster_is_followed_to_its_end() {
    let mut chain = Vec::new();
    for n in 2..62usize {
        chain.push((n, (n + 1) as u16));
    }
    chain.push((62, 0xFF8));
    let mut fs = open(volume(&chain, &[short_record(b"ALL        ", 0x20, 2, 61 * 512)]));
    let mut buffer = AlignedArrayBuffer::<16384> { buffer: [0; 16384] };
    let file = fs.find_file_in_root_dir("ALL", &mut buffer).unwrap();
    let clusters = fs.file_clusters(&file).unwrap();
    assert_eq!(clusters.len(), 61);
    for (i, cluster) in clusters.iter().enumerate() {
        assert_eq!(cluster.start_offset, 1536 + 512 * i as u64);
    }
}

#[test]
fn broken_chains_fail() {
    let mut buffer = AlignedArrayBuffer::<16384> { buffer: [0; 16384] };
    let cases = [
        (0u16, FatLookupError::FreeCluster),
        (1, FatLookupError::UnspecifiedEntryOne),
        (63, FatLookupError::ReservedEntry),
        (0xFF6, FatLookupError::ReservedEntry),
        (0xFF7, FatLookupError::DefectiveCluster),
    ];
    for (next, error) in cases {
        let image = volume(&[(5, next)], &[short_record(b"STAGE2  BIN", 0x20, 5, 1300)]);
        let mut fs = open(image);
        let file = fs.find_file_in_root_dir("STAGE2.BIN", &mut buffer).unwrap();
        assert_eq!(fs.file_clusters(&file), Err(error));
    }
}

#[test]
fn walk_delivers_cluster_by_cluster() {
    let image = volume(&[(5, 9), (9, 0xFFF)], &[]);
    let mut fs = open(image);
    let mut walk = Traverser::new(fs.bpb, 5);
    assert_eq!(walk.budget, 61);
    let pending = walk.pending().unwrap().unwrap();
    assert_eq!(pending.number, 5);
    assert_eq!(pending.entry_offset, 512 + 7);
    assert_eq!(pending.entry_width, 2);
    assert_eq!(pending.cluster, Cluster { start_offset: 1536 + 3 * 512, len_bytes: 512 });
    assert_eq!(
        walk.next_cluster(&mut fs.disk),
        Ok(Some(Cluster { start_offset: 1536 + 3 * 512, len_bytes: 512 }))
    );
    assert_eq!(walk.current_entry, 9);
    assert_eq!(walk.budget, 60);
    assert_eq!(
        walk.next_cluster(&mut fs.disk),
        Ok(Some(Cluster { start_offset: 1536 + 7 * 512, len_bytes: 512 }))
    );
    assert_eq!(walk.current_entry, 0xFFF);
    assert_eq!(walk.next_cluster(&mut fs.disk), Ok(None));
    assert_eq!(walk.next_cluster(&mut fs.disk), Ok(None));
    let mut fed = Traverser::new(fs.bpb, 5);
    let pending = fed.pending().unwrap().unwrap();
    fed.advance(&pending, &[0x90, 0x00]);
    assert_eq!(fed, Traverser { bpb: fs.bpb, current_entry: 9, budget: 60 });
}

#[test]
fn table_entries_are_decoded_by_width() {
    assert_eq!(decode_fat_entry(FatType::Fat12, 4, &[0xBC, 0xFA]), 0xABC);
    assert_eq!(decode_fat_entry(FatType::Fat12, 5, &[0xBC, 0xFA]), 0xFAB);
    assert_eq!(decode_fat_entry(FatType::Fat16, 5, &[0xBC, 0xFA]), 0xFABC);
    assert_eq!(decode_fat_entry(FatType::Fat32, 5, &[0x78, 0x56, 0x34, 0xF2]), 0x0234_5678);
    assert_eq!(fat_entry_position(FatType::Fat12, 5), 7);
    assert_eq!(fat_entry_position(FatType::Fat12, 4), 6);
    assert_eq!(fat_entry_position(FatType::Fat16, 5), 10);
    assert_eq!(fat_entry_position(FatType::Fat32, 5), 20);
    assert_eq!(fat_entry_width(FatType::Fat12), 2);
    assert_eq!(fat_entry_width(FatType::Fat16), 2);
    assert_eq!(fat_entry_width(FatType::Fat32), 4);
    assert_eq!(FatType::Fat12.fat_entry_defective(), 0xFF7);
    assert_eq!(FatType::Fat16.fat_entry_defective(), 0xFFF7);
    assert_eq!(FatType::Fat32.fat_entry_defective(), 0x0FFF_FFF7);
}

#[test]
fn table_entries_are_classified_by_width() {
    assert_eq!(classify_fat_entry(FatType::Fat16, 0, 100), Err(FatLookupError::FreeCluster));
    assert_eq!(classify_fat_entry(FatType::Fat16, 1, 100), Err(FatLookupError::UnspecifiedEntryOne));
    assert_eq!(classify_fat_entry(FatType::Fat16, 2, 100), Ok(FileFatEntry::AllocatedCluster(2)));
    assert_eq!(classify_fat_entry(FatType::Fat16, 100, 100), Ok(FileFatEntry::AllocatedCluster(100)));
    assert_eq!(classify_fat_entry(FatType::Fat16, 101, 100), Err(FatLookupError::ReservedEntry));
    assert_eq!(classify_fat_entry(FatType::Fat16, 0xFFF6, 100), Err(FatLookupError::ReservedEntry));
    assert_eq!(classify_fat_entry(FatType::Fat16, 0xFFF7, 100), Err(FatLookupError::DefectiveCluster));
    assert_eq!(classify_fat_entry(FatType::Fat16, 0xFFF8, 100), Ok(FileFatEntry::EndOfFile));
    assert_eq!(classify_fat_entry(FatType::Fat12, 0xFF8, 100), Ok(FileFatEntry::EndOfFile));
    assert_eq!(classify_fat_entry(FatType::Fat12, 0xFF7, 100), Err(FatLookupError::DefectiveCluster));
    assert_eq!(classify_fat_entry(FatType::Fat32, 0x0FFF_FFF7, 100), Err(FatLookupError::DefectiveCluster));
    assert_eq!(classify_fat_entry(FatType::Fat32, 0x0FFF_FFFF, 100), Ok(FileFatEntry::EndOfFile));
    assert_eq!(classify_fat_entry(FatType::Fat32, 0xFFF8, 100), Err(FatLookupError::ReservedEntry));
}

fn found(directory: &[u8], name: &str) -> Option<(u32, u32)> {
    find_in_directory(directory, name).map(|file: File| {
        assert_eq!(file.name, name);
        (file.first_cluster, file.file_size)
    })
}

#[test]
fn directory_is_searched_by_short_and_long_name() {
    let directory: Vec<[u8; 32]> = vec![
        short_record(b"NUT_OS_BOOT", 0x08, 0, 0),
        long_record(0x41, "boot-stage-2"),
        short_record(b"BOOT-S~1   ", 0x20, 3, 10),
        short_record(b"KERNEL  BIN", 0x20, 4, 20),
        short_record(b"NOEXT      ", 0x01, 0x0001_0005, 30),
        short_record(b"SUBDIR     ", 0x10, 6, 0),
        long_record(0x41, "thirteen-char"),
        short_record(b"THIRTE~1   ", 0x20, 7, 40),
    ];
    let directory = directory.concat();
    assert_eq!(found(&directory, "boot-stage-2"), Some((3, 10)));
    assert_eq!(found(&directory, "BOOT-S~1"), Some((3, 10)));
    assert_eq!(found(&directory, "KERNEL.BIN"), Some((4, 20)));
    assert_eq!(found(&directory, "NOEXT"), Some((0x0001_0005, 30)));
    assert_eq!(found(&directory, "thirteen-char"), Some((7, 40)));
    assert_eq!(found(&directory, "KERNELBIN"), None);
    assert_eq!(found(&directory, "KERNEL"), None);
    assert_eq!(found(&directory, "kernel.bin"), None);
    assert_eq!(found(&directory, "SUBDIR"), None);
    assert_eq!(found(&directory, "NUT_OS_B.OOT"), None);
    assert_eq!(found(&directory, "boot-stage-"), None);
    assert_eq!(found(&directory, "boot-stage-22"), None);
    assert_eq!(found(&directory, "fourteen-chars"), None);
    assert_eq!(found(&directory, ""), None);
    assert_eq!(found(&[], "KERNEL.BIN"), None);
    assert_eq!(found(&directory[..32 * 3 + 31], "KERNEL.BIN"), None);
}

#[test]
fn search_stops_at_the_end_of_the_directory_and_skips_free_records() {
    let mut freed = short_record(b"KERNEL  BIN", 0x20, 4, 20);
    freed[0] = 0xE5;
    let directory = [
        freed,
        short_record(b"KERNEL  BIN", 0x20, 9, 21),
        [0u8; 32],
        short_record(b"LATE    BIN", 0x20, 10, 22),
    ]
    .concat();
    assert_eq!(found(&directory, "KERNEL.BIN"), Some((9, 21)));
    assert_eq!(found(&directory, "LATE.BIN"), None);
    let directory = [
        long_record(0x41, "name"),
        freed,
        long_record(0x42, "other"),
        short_record(b"OTHER      ", 0x20, 11, 23),
        long_record(0x41, "dir"),
        short_record(b"DIR        ", 0x10, 12, 0),
        long_record(0x41, "last"),
    ]
    .concat();
    assert_eq!(found(&directory, "name"), None);
    assert_eq!(found(&directory, "other"), None);
    assert_eq!(found(&directory, "OTHER"), Some((11, 23)));
    assert_eq!(found(&directory, "dir"), None);
    assert_eq!(found(&directory, "last"), None);
}

#[test]
fn root_directory_that_does_not_fit_the_buffer_is_not_searched() {
    let image = volume(&[(5, 0xFFF)], &[short_record(b"STAGE2  BIN", 0x20, 5, 1300)]);
    let mut fs = open(image);
    let mut small = AlignedArrayBuffer::<256> { buffer: [7; 256] };
    assert!(fs.find_file_in_root_dir("STAGE2.BIN", &mut small).is_none());
    assert_eq!(small.buffer, [7; 256]);
    let mut exact = AlignedArrayBuffer::<512> { buffer: [7; 512] };
    assert!(fs.find_file_in_root_dir("STAGE2.BIN", &mut exact).is_some());
    assert_eq!(&exact.buffer[..11], b"STAGE2  BIN");
}

#[test]
fn table_that_cannot_be_read_fails_the_chain() {
    let image = volume(&[(5, 9), (9, 0xFFF)], &[]);
    let bpb = Bpb::parse(&image[..512]).unwrap();
    let mut cut = image.clone();
    cut.truncate(1024 + 511);
    let mut disk = MemoryDisk::new(cut, 0x80, 0);
    let mut walk = Traverser::new(bpb, 5);
    assert_eq!(walk.next_cluster(&mut disk), Err(FatLookupError::Device));
    assert_eq!(walk, Traverser::new(bpb, 5));
    let mut whole = MemoryDisk::new(image, 0x80, 0);
    assert!(walk.next_cluster(&mut whole).unwrap().is_some());
}
