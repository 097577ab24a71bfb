use bios_bootloader::disk_access::{AlignedArrayBuffer, DiskAccessPacket};
use bios_bootloader::fat::table::FatLookupError;
use bios_bootloader::fat::volume::FileSystem;
use bios_bootloader::image::{partition_table, plan_image};
use bios_bootloader::load_file::{load_file, try_load_file, LoadError};
use bios_bootloader::mbr::stage0;
use bios_bootloader::memory_disk::MemoryDisk;
use bios_bootloader::partition::{find_boot_volume, parse_partition_table};
use std::io::{Cursor, Write};

fn formatted_volume(size: usize, files: &[(&str, Vec<u8>)]) -> Vec<u8> {
    let mut image = Cursor::new(vec![0u8; size]);
    fatfs::format_volume(
        &mut image,
        fatfs::FormatVolumeOptions::new().volume_label(*b"NUT_OS_BOOT"),
    )
    .unwrap();
    {
        let fs = fatfs::FileSystem::new(&mut image, fatfs::FsOptions::new()).unwrap();
        let root = fs.root_dir();
        for (name, contents) in files {
            let mut file = root.create_file(name).unwrap();
            file.truncate().unwrap();
            file.write_all(contents).unwrap();
        }
    }
    image.into_inner()
}

fn padded(mut contents: Vec<u8>, cluster: usize) -> Vec<u8> {
    while contents.len() % cluster != 0 {
        contents.push(0);
    }
    contents
}

#[test]
fn file_is_loaded_cluster_by_cluster() {
    let stage2: Vec<u8> = (0..50_000u32).map(|i| (i % 241) as u8).collect();
    let stage3: Vec<u8> = (0..700u32).map(|i| (i % 13) as u8).collect();
    let image = formatted_volume(
        1024 * 1024,
        &[("boot-stage-2", stage2.clone()), ("boot-stage-3", stage3.clone())],
    );
    let mut fs = FileSystem::parse(MemoryDisk::new(image, 0x80, 0)).unwrap();
    let cluster = fs.bpb.bytes_per_cluster() as usize;
    let mut buffer = AlignedArrayBuffer::<16384> { buffer: [0; 16384] };
    let mut memory = vec![0xC3u8; 3];
    assert_eq!(try_load_file("boot-stage-2", &mut memory, &mut fs, &mut buffer), Ok(50_000));
    assert_eq!(&memory[..3], &[0xC3u8; 3]);
    assert_eq!(&memory[3..3 + 50_000], &stage2[..]);
    assert_eq!(memory.len(), 3 + padded(stage2.clone(), cluster).len());
    let mut memory = Vec::new();
    assert_eq!(load_file("boot-stage-3", &mut memory, &mut fs, &mut buffer), 700);
    assert_eq!(&memory[..700], &stage3[..]);
    assert_eq!(memory.len(), padded(stage3, cluster).len());
}

#[test]
fn loading_fails_without_changing_the_destination() {
    let image = formatted_volume(1024 * 1024, &[("boot-stage-2", vec![5u8; 5000])]);
    let mut fs = FileSystem::parse(MemoryDisk::new(image.clone(), 0x80, 0)).unwrap();
    let mut buffer = AlignedArrayBuffer::<16384> { buffer: [0; 16384] };
    let mut memory = vec![1u8, 2, 3];
    assert_eq!(
        try_load_file("boot-stage-9", &mut memory, &mut fs, &mut buffer),
        Err(LoadError::NotFound)
    );
    let mut tiny = AlignedArrayBuffer::<511> { buffer: [0; 511] };
    assert_eq!(
        try_load_file("boot-stage-2", &mut memory, &mut fs, &mut tiny),
        Err(LoadError::BufferTooSmall)
    );
    let mut small = AlignedArrayBuffer::<8192> { buffer: [0; 8192] };
    assert_eq!(
        try_load_file("boot-stage-2", &mut memory, &mut fs, &mut small),
        Err(LoadError::NotFound)
    );
    let mut cut = image.clone();
    cut.truncate(fs.bpb.data_offset() as usize + 1024);
    let mut short = FileSystem::parse(MemoryDisk::new(cut, 0x80, 0)).unwrap();
    assert_eq!(
        try_load_file("boot-stage-2", &mut memory, &mut short, &mut buffer),
        Err(LoadError::Device)
    );
    let mut broken = image;
    let fat = fs.bpb.fat_offset() as usize;
    for byte in broken[fat + 3..fat + 64].iter_mut() {
        *byte = 0;
    }
    let mut broken = FileSystem::parse(MemoryDisk::new(broken, 0x80, 0)).unwrap();
    assert_eq!(
        try_load_file("boot-stage-2", &mut memory, &mut broken, &mut buffer),
        Err(LoadError::Chain(FatLookupError::FreeCluster))
    );
    assert_eq!(memory, vec![1u8, 2, 3]);
}

#[test]
fn second_stage_is_found_and_loaded_from_a_whole_disk_image() {
    let stage1 = vec![0x90u8; 18_000];
    let volume = formatted_volume(1024 * 1024, &[("boot-stage-2", b"0123456789".to_vec())]);
    let layout = plan_image(stage1.len() as u64, volume.len() as u64).unwrap();
    let mut image = vec![0u8; 512];
    image[446..510].copy_from_slice(&partition_table(&layout));
    image[510] = 0x55;
    image[511] = 0xAA;
    image.extend_from_slice(&stage1);
    image.resize(layout.boot_volume_offset as usize, 0);
    image.extend_from_slice(&volume);

    let disk = MemoryDisk::new(image.clone(), 0x80, 0);
    let requests = stage0(&image[446..510], 0x7e00).unwrap();
    assert_eq!(
        requests,
        vec![
            DiskAccessPacket::from_lba(1, 32, 0, 0x07e0),
            DiskAccessPacket::from_lba(33, 4, 0, 0x0be0),
        ]
    );
    let mut memory = vec![0u8; 0x2_0000];
    for request in &requests {
        assert!(disk.extended_read(request, &mut memory));
    }
    assert_eq!(&memory[0x7e00..0x7e00 + 18_000], &stage1[..]);

    let entries = parse_partition_table(&image[446..510]);
    let boot_volume = find_boot_volume(&entries).unwrap();
    let disk = MemoryDisk::new(image, 0x80, boot_volume.logical_block_address);
    let mut fs = FileSystem::parse(disk).unwrap();
    let mut buffer = AlignedArrayBuffer::<16384> { buffer: [0; 16384] };
    let mut loaded = Vec::new();
    assert_eq!(try_load_file("boot-stage-2", &mut loaded, &mut fs, &mut buffer), Ok(10));
    assert_eq!(&loaded[..10], b"0123456789");
}
