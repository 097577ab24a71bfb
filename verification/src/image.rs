//! The layout of the disk image that the stages boot from.
//!
//! Sector 0 holds the boot sector with the partition table. The first
//! partition holds the next stage and starts with sector 1. The second
//! partition holds the FAT volume with the later stages and follows the
//! first.

use crate::fail::Failure;
use crate::mbr::{get_partition_spec, lemma_wire_round_trip, Partition};
use crate::partition::{
    is_first_second_stage, PartitionTableEntry, PartitionType,
    BOOTLOADER_SECOND_STAGE_PARTITION_TYPE,
};
use vstd::prelude::*;

verus! {

/// The size of a sector of the image.
pub const SECTOR_SIZE: u32 = 512;

/// The number of bytes of a mebibyte.
pub const MB: u64 = 0x10_0000;

/// The room that a volume gets beyond its files, less one byte.
pub const VOLUME_PADDING: u64 = 0xffff;

/// The sector with which the partition of the next stage starts.
pub const STAGE1_START_SECTOR: u32 = 1;

/// The type byte of the partition that holds the FAT volume.
pub const BOOT_VOLUME_PARTITION_TYPE: u8 = 0x0c;

/// The label of the FAT volume.
pub const VOLUME_LABEL: [u8; 11] = [
    0x4e, 0x55, 0x54, 0x5f, 0x4f, 0x53, 0x5f, 0x42, 0x4f, 0x4f, 0x54,
];

/// The number of sectors that hold `len` bytes, for `len` above 0.
pub open spec fn sectors_holding(len: int) -> int {
    (len - 1) / 512 + 1
}

/// The number of sectors that hold `len` bytes. There is none for no bytes,
/// and none where the number does not fit 32 bits.
pub fn sectors_for(len: u64) -> (sectors: Option<u32>)
    ensures
        sectors is Some <==> 0 < len && sectors_holding(len as int) <= u32::MAX,
        sectors is Some ==> sectors->Some_0 == sectors_holding(len as int),
        sectors is Some ==> sectors->Some_0 * 512 >= len > (sectors->Some_0 - 1) * 512,
{
    if len == 0 {
        return None;
    }
    let count: u64 = (len - 1) / 512 + 1;
    if count > u32::MAX as u64 {
        None
    } else {
        Some(count as u32)
    }
}

/// The two partitions of an image and the place of the second.
#[derive(Clone, Copy, Debug, PartialEq, Eq, Structural)]
pub struct ImageLayout {
    /// The partition of the next stage.
    pub stage1: Partition,
    /// The partition of the FAT volume.
    pub boot_volume: Partition,
    /// The byte of the image at which the FAT volume starts.
    pub boot_volume_offset: u32,
}

/// The layout of an image whose next stage has `stage1_len` bytes and whose
/// FAT volume has `boot_volume_len` bytes, if there is one.
pub open spec fn layout_of(stage1_len: int, boot_volume_len: int) -> Option<ImageLayout> {
    let stage1_sectors = sectors_holding(stage1_len);
    let volume_sectors = sectors_holding(boot_volume_len);
    let volume_start = 1 + stage1_sectors;
    if stage1_len <= 0 || boot_volume_len <= 0 || stage1_sectors > u32::MAX || volume_sectors
        > u32::MAX || volume_start * 512 > u32::MAX {
        None
    } else {
        Some(
            ImageLayout {
                stage1: Partition {
                    bootable: true,
                    partition_type: BOOTLOADER_SECOND_STAGE_PARTITION_TYPE,
                    logical_block_address: 1,
                    sector_count: stage1_sectors as u32,
                },
                boot_volume: Partition {
                    bootable: true,
                    partition_type: BOOT_VOLUME_PARTITION_TYPE,
                    logical_block_address: volume_start as u32,
                    sector_count: volume_sectors as u32,
                },
                boot_volume_offset: (volume_start * 512) as u32,
            },
        )
    }
}

/// Lays out the image: the next stage from sector 1 on, marked as the
/// partition of the second stage, and the FAT volume behind it, both marked
/// bootable.
///
/// There is no layout for an empty stage or volume, for one of more sectors
/// than 32 bits count, or for a volume that starts at or behind 4 GiB.
pub fn plan_image(stage1_len: u64, boot_volume_len: u64) -> (layout: Option<ImageLayout>)
    ensures
        layout == layout_of(stage1_len as int, boot_volume_len as int),
{
    let stage1_sectors: u32 = match sectors_for(stage1_len) {
        Some(sectors) => sectors,
        None => {
            return None;
        },
    };
    let volume_sectors: u32 = match sectors_for(boot_volume_len) {
        Some(sectors) => sectors,
        None => {
            return None;
        },
    };
    let volume_start: u64 = STAGE1_START_SECTOR as u64 + stage1_sectors as u64;
    if volume_start * 512 > u32::MAX as u64 {
        return None;
    }
    Some(
        ImageLayout {
            stage1: Partition::new(
                true,
                BOOTLOADER_SECOND_STAGE_PARTITION_TYPE,
                STAGE1_START_SECTOR,
                stage1_sectors,
            ),
            boot_volume: Partition::new(
                true,
                BOOT_VOLUME_PARTITION_TYPE,
                volume_start as u32,
                volume_sectors,
            ),
            boot_volume_offset: (volume_start * 512) as u32,
        },
    )
}

/// The size of the FAT volume for files of `size_needed` bytes in all: the
/// files and 64 KiB, rounded up to whole mebibytes, and never without a
/// mebibyte to spare.
pub open spec fn volume_size(size_needed: int) -> int {
    ((size_needed + 0xffff) / 0x10_0000 + 1) * 0x10_0000
}

/// The size of the FAT volume for files of `size_needed` bytes in all, where
/// it fits 64 bits.
pub fn fat_image_size(size_needed: u64) -> (size: Option<u64>)
    ensures
        size is Some <==> volume_size(size_needed as int) <= u64::MAX,
        size is Some ==> size->Some_0 == volume_size(size_needed as int),
        size is Some ==> size->Some_0 % MB == 0 && size->Some_0 > size_needed,
{
    if size_needed > u64::MAX - VOLUME_PADDING {
        return None;
    }
    let whole: u64 = (size_needed + VOLUME_PADDING) / MB + 1;
    if whole > u64::MAX / MB {
        return None;
    }
    Some(whole * MB)
}

/// The partition table of an image with the layout `layout`: its two
/// partitions, and two unused records.
pub fn partition_table(layout: &ImageLayout) -> (table: Vec<u8>)
    ensures
        table@.len() == 64,
        table@ == layout.stage1.wire() + layout.boot_volume.wire() + Seq::new(32, |i: int| 0u8),
{
    let first = layout.stage1.to_bytes();
    let second = layout.boot_volume.to_bytes();
    let mut table: Vec<u8> = Vec::new();
    let mut i: usize = 0;
    while i < 64
        invariant
            i <= 64,
            first@ == layout.stage1.wire(),
            second@ == layout.boot_volume.wire(),
            table@.len() == i,
            forall|k: int|
                0 <= k < i ==> table@[k] == if k < 16 {
                    first@[k]
                } else if k < 32 {
                    second@[k - 16]
                } else {
                    0u8
                },
        decreases 64 - i,
    {
        let byte: u8 = if i < 16 {
            first[i]
        } else if i < 32 {
            second[i - 16]
        } else {
            0
        };
        table.push(byte);
        i += 1;
    }
    assert(table@ =~= layout.stage1.wire() + layout.boot_volume.wire() + Seq::new(
        32,
        |i: int| 0u8,
    ));
    table
}

/// Where the contents of a file of the volume come from.
#[derive(Clone, Debug)]
pub enum FileDataSource {
    /// From the file at this path.
    File(String),
    /// From these bytes.
    Data(Vec<u8>),
}

impl FileDataSource {
    /// The number of bytes of the source, where the source holds them
    /// itself. The length of a file is for the caller to ask.
    pub fn len(&self) -> (len: Option<u64>)
        ensures
            len == match *self {
                FileDataSource::File(_) => None,
                FileDataSource::Data(bytes) => Some(bytes@.len() as u64),
            },
    {
        match self {
            FileDataSource::File(_) => None,
            FileDataSource::Data(bytes) => Some(bytes.len() as u64),
        }
    }
}

/// The sum of `lens`.
pub open spec fn total(lens: Seq<u64>) -> int
    decreases lens.len(),
{
    if lens.len() == 0 {
        0
    } else {
        total(lens.drop_last()) + lens.last()
    }
}

/// The number of bytes of all files together, given the length of each,
/// where it fits 64 bits.
pub fn size_needed(lens: &[u64]) -> (sum: Option<u64>)
    ensures
        sum is Some <==> total(lens@) <= u64::MAX,
        sum is Some ==> sum->Some_0 == total(lens@),
{
    let mut sum: u64 = 0;
    let mut i: usize = 0;
    assert(lens@.subrange(0, 0) =~= Seq::<u64>::empty());
    while i < lens.len()
        invariant
            i <= lens@.len(),
            sum == total(lens@.subrange(0, i as int)),
        decreases lens@.len() - i,
    {
        proof {
            let next = lens@.subrange(0, i + 1);
            assert(next.drop_last() =~= lens@.subrange(0, i as int));
            assert(next.last() == lens@[i as int]);
        }
        if lens[i] > u64::MAX - sum {
            proof {
                lemma_total_grows(lens@, i + 1);
            }
            return None;
        }
        sum = sum + lens[i];
        i += 1;
    }
    assert(lens@.subrange(0, i as int) =~= lens@);
    Some(sum)
}

/// The sum of the first lengths is no more than the sum of all.
pub proof fn lemma_total_grows(lens: Seq<u64>, count: int)
    requires
        0 <= count <= lens.len(),
    ensures
        total(lens.subrange(0, count)) <= total(lens),
    decreases lens.len() - count,
{
    if count < lens.len() {
        let next = lens.subrange(0, count + 1);
        assert(next.drop_last() =~= lens.subrange(0, count));
        lemma_total_grows(lens, count + 1);
    } else {
        assert(lens.subrange(0, count) =~= lens);
    }
}

/// The table of an image as bytes.
pub open spec fn table_of(layout: ImageLayout) -> Seq<u8> {
    layout.stage1.wire() + layout.boot_volume.wire() + Seq::new(32, |i: int| 0u8)
}

/// The four records that the stage behind the boot sector reads from
/// `table`.
pub open spec fn records_of(table: Seq<u8>) -> Seq<PartitionTableEntry> {
    Seq::new(4, |i: int| PartitionTableEntry::at(table, 16 * i))
}

/// The stages find in the table of a laid-out image what was laid out: the
/// boot sector reads the partition of the next stage from the first record,
/// and the next stage finds the mark of the second stage in the first record
/// and the FAT volume, with its first sector and sector count, in the record
/// behind it.
pub proof fn lemma_stages_find_layout(stage1_len: int, boot_volume_len: int)
    requires
        layout_of(stage1_len, boot_volume_len) is Some,
    ensures
        ({
            let layout = layout_of(stage1_len, boot_volume_len)->Some_0;
            let table = table_of(layout);
            let records = records_of(table);
            &&& table.len() == 64
            &&& get_partition_spec(table, 0) == Ok::<Partition, Failure>(layout.stage1)
            &&& is_first_second_stage(records, 0)
            &&& records[1].partition_type == PartitionType::Fat32(BOOT_VOLUME_PARTITION_TYPE)
            &&& records[1].logical_block_address == layout.boot_volume.logical_block_address
            &&& records[1].sector_count == layout.boot_volume.sector_count
            &&& layout.boot_volume.logical_block_address == 1 + layout.stage1.sector_count
            &&& layout.boot_volume_offset == 512 * layout.boot_volume.logical_block_address
        }),
{
    let layout = layout_of(stage1_len, boot_volume_len)->Some_0;
    let table = table_of(layout);
    let first = layout.stage1.wire();
    let second = layout.boot_volume.wire();
    lemma_wire_round_trip(layout.stage1);
    lemma_wire_round_trip(layout.boot_volume);
    assert(table.len() == 64);
    assert forall|k: int| 0 <= k < 16 implies table[k] == first[k] && table[16 + k]
        == second[k] by {}
    let records = records_of(table);
    assert(records[0] == PartitionTableEntry::at(table, 0));
    assert(records[1] == PartitionTableEntry::at(table, 16));
}

} // verus!
