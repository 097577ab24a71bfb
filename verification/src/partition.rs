//! The partition table as the first stage behind the boot sector reads it.

use crate::bytes::{le_u32, read_le_u32};
use crate::disk_access::DiskAccess;
use crate::mbr::BOOTABLE_FLAG;
use vstd::prelude::*;

verus! {

/// The number of records in the partition table.
pub const MAX_PARTITIONS: usize = 4;

/// The size of one record of the partition table.
pub const PARTITION_ENTRY_SIZE: usize = 16;

/// The size of the partition table.
pub const PARTITION_TABLE_SIZE: usize = 64;

/// The type byte of the partition that holds the second bootloader stage.
pub const BOOTLOADER_SECOND_STAGE_PARTITION_TYPE: u8 = 0x20;

/// What a partition holds, as its type byte says.
#[derive(Copy, Clone, Debug, PartialEq, Eq, Hash, Structural)]
pub enum PartitionType {
    /// The record is unused.
    Empty,
    /// A type that this crate has no name for, with the byte.
    Unknown(u8),
    /// A FAT12 volume, with the byte.
    Fat12(u8),
    /// A FAT16 volume, with the byte.
    Fat16(u8),
    /// A FAT32 volume, with the byte.
    Fat32(u8),
}

impl PartitionType {
    /// The partition type that the type byte `tag` stands for.
    pub open spec fn of_tag(tag: u8) -> PartitionType {
        if tag == 0x00 {
            PartitionType::Empty
        } else if tag == 0x01 {
            PartitionType::Fat12(tag)
        } else if tag == 0x04 || tag == 0x06 || tag == 0x0e {
            PartitionType::Fat16(tag)
        } else if tag == 0x0b || tag == 0x0c || tag == 0x1b || tag == 0x1c {
            PartitionType::Fat32(tag)
        } else {
            PartitionType::Unknown(tag)
        }
    }

    /// The type byte that a partition type was read from.
    pub open spec fn tag(self) -> u8 {
        match self {
            PartitionType::Empty => 0,
            PartitionType::Unknown(tag) => tag,
            PartitionType::Fat12(tag) => tag,
            PartitionType::Fat16(tag) => tag,
            PartitionType::Fat32(tag) => tag,
        }
    }

    /// Classifies the type byte of a partition record: 0x00 is an unused
    /// record, 0x01 is FAT12, 0x04, 0x06 and 0x0e are FAT16, 0x0b, 0x0c, 0x1b
    /// and 0x1c are FAT32, and every other byte is unknown.
    pub fn from_mbr_tag_byte(tag: u8) -> (partition_type: PartitionType)
        ensures
            partition_type == Self::of_tag(tag),
            partition_type.tag() == tag,
            tag == 0x00 <==> partition_type == PartitionType::Empty,
            tag == 0x01 <==> partition_type is Fat12,
            tag == 0x04 || tag == 0x06 || tag == 0x0e <==> partition_type is Fat16,
            tag == 0x0b || tag == 0x0c || tag == 0x1b || tag == 0x1c <==> partition_type is Fat32,
    {
        match tag {
            0x00 => PartitionType::Empty,
            0x01 => PartitionType::Fat12(tag),
            0x04 | 0x06 | 0x0e => PartitionType::Fat16(tag),
            0x0b | 0x0c | 0x1b | 0x1c => PartitionType::Fat32(tag),
            _ => PartitionType::Unknown(tag),
        }
    }
}

/// One record of the partition table.
#[derive(Copy, Clone, Debug, PartialEq, Eq, Hash, Structural)]
pub struct PartitionTableEntry {
    /// What the partition holds.
    pub partition_type: PartitionType,
    /// The first sector of the partition.
    pub logical_block_address: u32,
    /// The number of sectors.
    pub sector_count: u32,
    /// Whether the partition is marked bootable.
    pub bootable: bool,
}

impl PartitionTableEntry {
    /// The record of a partition that is not marked bootable.
    pub fn new(partition_type: PartitionType, logical_block_address: u32, sector_count: u32) -> (entry:
        PartitionTableEntry)
        ensures
            entry == (PartitionTableEntry {
                partition_type,
                logical_block_address,
                sector_count,
                bootable: false,
            }),
    {
        PartitionTableEntry { partition_type, logical_block_address, sector_count, bootable: false }
    }

    /// The unused record.
    pub fn empty() -> (entry: PartitionTableEntry)
        ensures
            entry == (PartitionTableEntry {
                partition_type: PartitionType::Empty,
                logical_block_address: 0,
                sector_count: 0,
                bootable: false,
            }),
    {
        PartitionTableEntry::new(PartitionType::Empty, 0, 0)
    }

    /// The record that the 16 bytes at `offset` of `raw` hold.
    pub open spec fn at(raw: Seq<u8>, offset: int) -> PartitionTableEntry {
        PartitionTableEntry {
            partition_type: PartitionType::of_tag(raw[offset + 4]),
            logical_block_address: le_u32(raw, offset + 8) as u32,
            sector_count: le_u32(raw, offset + 12) as u32,
            bootable: raw[offset] == BOOTABLE_FLAG,
        }
    }

    /// Reads the record in the 16 bytes at `offset` of `raw`: the boot flag
    /// in byte 0, the type in byte 4, the first sector in bytes 8 to 11 and
    /// the sector count in bytes 12 to 15.
    pub fn parse(raw: &[u8], offset: usize) -> (entry: PartitionTableEntry)
        requires
            offset + 16 <= raw@.len(),
        ensures
            entry == Self::at(raw@, offset as int),
    {
        let len: usize = raw.len();
        PartitionTableEntry {
            partition_type: PartitionType::from_mbr_tag_byte(raw[offset + 4]),
            logical_block_address: read_le_u32(raw, offset + 8),
            sector_count: read_le_u32(raw, offset + 12),
            bootable: raw[offset] == BOOTABLE_FLAG,
        }
    }
}

/// Reads the four records of the partition table in the first 64 bytes of
/// `raw`.
pub fn parse_partition_table(raw: &[u8]) -> (entries: [PartitionTableEntry; 4])
    requires
        raw@.len() >= 64,
    ensures
        forall|i: int| 0 <= i < 4 ==> entries@[i] == PartitionTableEntry::at(raw@, 16 * i),
{
    [
        PartitionTableEntry::parse(raw, 0),
        PartitionTableEntry::parse(raw, 16),
        PartitionTableEntry::parse(raw, 32),
        PartitionTableEntry::parse(raw, 48),
    ]
}

/// Whether `entry` is the partition that holds the second bootloader stage.
pub open spec fn is_second_stage(entry: PartitionTableEntry) -> bool {
    entry.partition_type == PartitionType::Unknown(BOOTLOADER_SECOND_STAGE_PARTITION_TYPE)
}

/// Whether `index` is the first record of `partitions` that holds the second
/// bootloader stage.
pub open spec fn is_first_second_stage(partitions: Seq<PartitionTableEntry>, index: int) -> bool {
    &&& 0 <= index < partitions.len()
    &&& is_second_stage(partitions[index])
    &&& forall|j: int| 0 <= j < index ==> !is_second_stage(#[trigger] partitions[j])
}

/// The index of the first record that holds the second bootloader stage, if
/// there is one.
pub fn find_second_stage_partition(partitions: &[PartitionTableEntry]) -> (found: Option<usize>)
    ensures
        match found {
            Some(index) => is_first_second_stage(partitions@, index as int),
            None => forall|j: int|
                0 <= j < partitions@.len() ==> !is_second_stage(#[trigger] partitions@[j]),
        },
{
    let mut i: usize = 0;
    while i < partitions.len()
        invariant
            i <= partitions@.len(),
            forall|j: int| 0 <= j < i ==> !is_second_stage(#[trigger] partitions@[j]),
        decreases partitions@.len() - i,
    {
        let entry = &partitions[i];
        let matches = match entry.partition_type {
            PartitionType::Unknown(tag) => tag == BOOTLOADER_SECOND_STAGE_PARTITION_TYPE,
            _ => false,
        };
        if matches {
            return Some(i);
        }
        i += 1;
    }
    None
}

/// The record of the volume that holds the later stages: the one that
/// follows the first record of the second bootloader stage. There is none if
/// no record holds the second stage, or if that record is the last.
pub fn find_boot_volume(partitions: &[PartitionTableEntry]) -> (found: Option<PartitionTableEntry>)
    ensures
        found is Some <==> exists|index: int|
            is_first_second_stage(partitions@, index) && index + 1 < partitions@.len(),
        forall|index: int|
            is_first_second_stage(partitions@, index) && index + 1 < partitions@.len() ==> found
                == Some(partitions@[index + 1]),
{
    match find_second_stage_partition(partitions) {
        Some(index) => {
            assert forall|other: int| is_first_second_stage(partitions@, other) implies other
                == index by {
                if other < index {
                    assert(!is_second_stage(partitions@[other]));
                }
                if index < other {
                    assert(!is_second_stage(partitions@[index as int]));
                }
            }
            let count: usize = partitions.len();
            if index < count - 1 {
                Some(partitions[index + 1])
            } else {
                None
            }
        },
        None => {
            assert forall|other: int| !is_first_second_stage(partitions@, other) by {
                if 0 <= other < partitions@.len() {
                    assert(!is_second_stage(partitions@[other]));
                }
            }
            None
        },
    }
}

/// The cursor at the start of the partition `entry` of disk `disk_number`.
pub fn open_partition(disk_number: u16, entry: &PartitionTableEntry) -> (disk: DiskAccess)
    ensures
        disk == (DiskAccess {
            disk_number,
            base_offset: (entry.logical_block_address * 512) as u64,
            current_offset: 0,
        }),
{
    DiskAccess::for_partition(disk_number, entry.logical_block_address)
}

} // verus!
