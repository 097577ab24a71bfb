use bios_bootloader::disk_access::{
    AlignedArrayBuffer, AlignedBuffer, ChunkedRead, DiskAccess, DiskAccessPacket, Read, ReadError,
    Seek, SeekFrom,
};
use bios_bootloader::fail::Failure;
use bios_bootloader::memory_disk::MemoryDisk;

fn patterned(len: usize) -> Vec<u8> {
    (0..len).map(|i| ((i * 7 + i / 512) % 256) as u8).collect()
}

#[test]
fn packet_from_lba_fills_fixed_fields() {
    let packet = DiskAccessPacket::from_lba(0x1122_3344_5566_7788, 32, 0x000f, 0x1234);
    assert_eq!(packet.packet_size, 0x10);
    assert_eq!(packet.zero, 0);
    assert_eq!(packet.num_sectors, 32);
    assert_eq!(packet.offset, 0x000f);
    assert_eq!(packet.segment, 0x1234);
    assert_eq!(packet.start_lba, 0x1122_3344_5566_7788);
}

#[test]
fn packet_wire_format_is_little_endian() {
    let packet = DiskAccessPacket::from_lba(0x1122_3344_5566_7788, 0x0120, 0xabcd, 0x1234);
    assert_eq!(
        packet.to_bytes(),
        [
            0x10, 0x00, 0x20, 0x01, 0xcd, 0xab, 0x34, 0x12, 0x88, 0x77, 0x66, 0x55, 0x44, 0x33,
            0x22, 0x11
        ]
    );
}

#[test]
fn read_is_cut_into_calls_of_at_most_32_sectors() {
    for sectors in [0u64, 1, 31, 32, 33, 64, 65, 100] {
        let read = ChunkedRead::new(10, sectors, 0x8000);
        let packets = read.collect().unwrap();
        assert_eq!(packets.len() as u64, (sectors + 31) / 32);
        let mut lba = 10u64;
        let mut target = 0x8000u32;
        let mut left = sectors;
        for packet in &packets {
            assert_eq!(packet.start_lba, lba);
            assert_eq!(u32::from(packet.segment) * 16 + u32::from(packet.offset), target);
            assert_eq!(u64::from(packet.num_sectors), left.min(32));
            assert!(packet.num_sectors >= 1);
            lba += u64::from(packet.num_sectors);
            target += u32::from(packet.num_sectors) * 512;
            left -= u64::from(packet.num_sectors);
        }
        assert_eq!(left, 0);
    }
}

#[test]
fn seventy_sectors_take_three_calls() {
    let packets = ChunkedRead::new(100, 70, 0x1_0005).collect().unwrap();
    assert_eq!(
        packets,
        vec![
            DiskAccessPacket::from_lba(100, 32, 5, 0x1000),
            DiskAccessPacket::from_lba(132, 32, 5, 0x1400),
            DiskAccessPacket::from_lba(164, 6, 5, 0x1800),
        ]
    );
}

#[test]
fn next_packet_advances_the_read() {
    let mut read = ChunkedRead::new(7, 40, 0x7c00);
    assert_eq!(
        read.next_packet(),
        Ok(Some(DiskAccessPacket::from_lba(7, 32, 0, 0x07c0)))
    );
    assert_eq!(read, ChunkedRead { next_lba: 39, remaining: 8, target_addr: 0x7c00 + 0x4000 });
    assert_eq!(
        read.next_packet(),
        Ok(Some(DiskAccessPacket::from_lba(39, 8, 0, 0x0bc0)))
    );
    assert_eq!(read.remaining, 0);
    assert_eq!(read.next_packet(), Ok(None));
    assert_eq!(read.next_packet(), Ok(None));
}

#[test]
fn destination_above_one_mebibyte_fails() {
    let mut read = ChunkedRead::new(0, 1, 0x10_0000);
    assert_eq!(read.next_packet(), Err(Failure { code: b'a' }));
    assert_eq!(read, ChunkedRead { next_lba: 0, remaining: 1, target_addr: 0x10_0000 });
    assert_eq!(ChunkedRead::new(0, 64, 0xf_c000).collect(), Err(Failure { code: b'a' }));
    assert_eq!(ChunkedRead::new(0, 32, 0xf_c000).collect().unwrap().len(), 1);
    assert_eq!(ChunkedRead::new(0, 0, 0xffff_ffff).collect(), Ok(Vec::new()));
}

#[test]
fn seek_moves_the_cursor_only() {
    let mut disk = DiskAccess { disk_number: 0x80, base_offset: 512, current_offset: 0 };
    assert_eq!(disk.seek(SeekFrom::Start(12345)), 12345);
    assert_eq!(disk, DiskAccess { disk_number: 0x80, base_offset: 512, current_offset: 12345 });
}

#[test]
fn aligned_read_spans_its_sectors() {
    let mut disk = DiskAccess::for_partition(0x80, 3);
    assert_eq!(disk.base_offset, 1536);
    disk.seek(SeekFrom::Start(1024));
    let read = disk.read_exact_into(16384 * 2 + 512, 0x9000);
    assert_eq!(read, ChunkedRead { next_lba: 5, remaining: 65, target_addr: 0x9000 });
    assert_eq!(disk.current_offset, 1024 + 16384 * 2 + 512);
    assert_eq!(read.collect().unwrap().len(), 3);
}

#[test]
fn unaligned_read_takes_one_sector_more() {
    let mut disk = DiskAccess { disk_number: 0x80, base_offset: 0, current_offset: 100 };
    let read = disk.read_exact_into(1024, 0x9000);
    assert_eq!(read, ChunkedRead { next_lba: 0, remaining: 3, target_addr: 0x9000 });
    assert_eq!(disk.current_offset, 1124);
}

#[test]
fn empty_read_takes_no_call() {
    let mut disk = DiskAccess { disk_number: 0x80, base_offset: 512, current_offset: 0 };
    let read = disk.read_exact_into(0, 0x9000);
    assert_eq!(read.remaining, 0);
    assert_eq!(read.collect(), Ok(Vec::new()));
    assert_eq!(disk.current_offset, 0);
}

#[test]
fn sub_sector_read_uses_double_sector_window() {
    let mut disk = DiskAccess { disk_number: 0x80, base_offset: 1024, current_offset: 700 };
    let (read, skip) = disk.read_exact(4, 0x500);
    assert_eq!(read, ChunkedRead { next_lba: 3, remaining: 2, target_addr: 0x500 });
    assert_eq!(skip, 188);
    assert_eq!(disk.current_offset, 512 + 1024);
}

#[test]
fn aligned_array_buffer_gives_its_bytes() {
    let mut buffer = AlignedArrayBuffer::<4> { buffer: [1, 2, 3, 4] };
    assert_eq!(buffer.slice(), &[1, 2, 3, 4]);
    buffer.slice_mut()[2] = 9;
    assert_eq!(buffer.buffer, [1, 2, 9, 4]);
}

#[test]
fn simulated_firmware_copies_sectors() {
    let disk = MemoryDisk::new(patterned(8 * 512), 0x80, 0);
    let mut memory = vec![0xAAu8; 4096];
    let packet = DiskAccessPacket::from_lba(2, 3, 0x10, 0x20);
    assert!(disk.extended_read(&packet, &mut memory));
    assert_eq!(&memory[..0x210], &vec![0xAAu8; 0x210][..]);
    assert_eq!(&memory[0x210..0x210 + 1536], &patterned(8 * 512)[1024..2560]);
    assert_eq!(&memory[0x210 + 1536..], &vec![0xAAu8; 4096 - 0x210 - 1536][..]);
}

#[test]
fn simulated_firmware_fails_beyond_disk_or_memory() {
    let disk = MemoryDisk::new(patterned(8 * 512), 0x80, 0);
    let mut memory = vec![0xAAu8; 4096];
    assert!(!disk.extended_read(&DiskAccessPacket::from_lba(6, 3, 0, 0), &mut memory));
    assert!(!disk.extended_read(&DiskAccessPacket::from_lba(0, 8, 1, 0), &mut memory));
    assert!(!disk.extended_read(&DiskAccessPacket::from_lba(0, 1, 0, 0x1000), &mut memory));
    assert_eq!(memory, vec![0xAAu8; 4096]);
    assert!(disk.extended_read(&DiskAccessPacket::from_lba(0, 8, 0, 0), &mut memory));
    assert_eq!(memory, patterned(8 * 512));
}

#[test]
fn write_then_read_gives_the_bytes_back() {
    let data = patterned(16384 * 3);
    let mut disk = MemoryDisk::new(vec![0u8; 512 * 200], 0x80, 4);
    disk.seek(SeekFrom::Start(16384));
    assert_eq!(disk.write_all(&data), Ok(()));
    assert_eq!(disk.current_offset, 16384 * 4);
    disk.seek(SeekFrom::Start(16384));
    let mut read_back = Vec::new();
    let mut buffer = AlignedArrayBuffer::<16384> { buffer: [0; 16384] };
    for _ in 0..3 {
        assert_eq!(disk.read_exact_into(16384, &mut buffer), Ok(()));
        read_back.extend_from_slice(&buffer.buffer);
    }
    assert_eq!(read_back, data);
    assert_eq!(disk.current_offset, 16384 * 4);
    assert_eq!(&disk.image[..2048 + 16384], &vec![0u8; 2048 + 16384][..]);
    assert_eq!(&disk.image[2048 + 16384..2048 + 16384 * 4], &data[..]);
}

#[test]
fn read_of_many_chunks_lands_in_order() {
    let image = patterned(512 * 100);
    let mut disk = MemoryDisk::new(image.clone(), 0x80, 1);
    let mut buffer = AlignedArrayBuffer::<40960> { buffer: [0xEE; 40960] };
    disk.seek(SeekFrom::Start(512));
    assert_eq!(disk.read_exact_into(512 * 70, &mut buffer), Ok(()));
    assert_eq!(&buffer.buffer[..512 * 70], &image[1024..1024 + 512 * 70]);
    assert_eq!(&buffer.buffer[512 * 70..], &[0xEEu8; 40960 - 512 * 70][..]);
}

#[test]
fn read_beyond_the_medium_fails_and_changes_nothing() {
    let mut disk = MemoryDisk::new(patterned(512 * 4), 0x80, 1);
    let mut buffer = AlignedArrayBuffer::<4096> { buffer: [0xEE; 4096] };
    disk.seek(SeekFrom::Start(512));
    assert_eq!(disk.read_exact_into(1536, &mut buffer), Err(ReadError::Device));
    assert_eq!(disk.current_offset, 512);
    assert_eq!(buffer.buffer, [0xEE; 4096]);
    assert_eq!(disk.read_exact_into(1024, &mut buffer), Ok(()));
    assert_eq!(disk.write_all(&[1, 2, 3]), Err(ReadError::Device));
    assert_eq!(disk.read_exact_into(0, &mut buffer), Ok(()));
}

#[test]
fn sub_sector_read_gives_the_bytes_at_the_cursor() {
    let image = patterned(512 * 8);
    let mut disk = MemoryDisk::new(image.clone(), 0x80, 2);
    disk.seek(SeekFrom::Start(700));
    assert_eq!(disk.read_exact(4), Ok(image[1724..1728].to_vec()));
    assert_eq!(disk.current_offset, 1536);
    disk.seek(SeekFrom::Start(511));
    assert_eq!(disk.read_exact(513), Ok(image[1535..2048].to_vec()));
    disk.seek(SeekFrom::Start(512 * 5));
    assert_eq!(disk.read_exact(2), Err(ReadError::Device));
    assert_eq!(disk.current_offset, 512 * 5);
    disk.seek(SeekFrom::Start(512 * 4));
    assert_eq!(disk.read_exact(2), Ok(image[3072..3074].to_vec()));
}
