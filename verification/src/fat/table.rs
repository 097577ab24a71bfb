//! The entries of the file allocation table.

use crate::bytes::{le_u16, le_u32, read_le_u16, read_le_u32};
use crate::fat::bpb::FatType;
use vstd::prelude::*;

verus! {

/// What a table entry says of a file's chain.
#[derive(Clone, Copy, Debug, PartialEq, Eq, Structural)]
pub enum FileFatEntry {
    /// The chain goes on with the cluster of this number.
    AllocatedCluster(u32),
    /// The chain has ended.
    EndOfFile,
}

/// Why a chain cannot be followed.
#[derive(Clone, Copy, Debug, PartialEq, Eq, Structural)]
pub enum FatLookupError {
    /// The chain leads to a free cluster.
    FreeCluster,
    /// The chain leads to a cluster marked defective.
    DefectiveCluster,
    /// The chain leads to entry one, which stands for no cluster.
    UnspecifiedEntryOne,
    /// The chain leads to a reserved entry.
    ReservedEntry,
    /// The chain has more clusters than the volume, so it runs in a circle.
    CircularChain,
    /// The table could not be read.
    Device,
}

/// What the table entry `entry` says on a volume whose greatest cluster
/// number is `maximum_valid_cluster`.
pub open spec fn classify(fat_type: FatType, entry: u32, maximum_valid_cluster: u32) -> Result<
    FileFatEntry,
    FatLookupError,
> {
    if entry == 0 {
        Err(FatLookupError::FreeCluster)
    } else if entry == 1 {
        Err(FatLookupError::UnspecifiedEntryOne)
    } else if entry <= maximum_valid_cluster {
        Ok(FileFatEntry::AllocatedCluster(entry))
    } else if entry < fat_type.defective() {
        Err(FatLookupError::ReservedEntry)
    } else if entry == fat_type.defective() {
        Err(FatLookupError::DefectiveCluster)
    } else {
        Ok(FileFatEntry::EndOfFile)
    }
}

/// Tells what the table entry `entry` says: 0 is a free cluster, 1 stands
/// for nothing, a number up to `maximum_valid_cluster` is the next cluster,
/// a greater one below the mark of a defective cluster is reserved, and one
/// above that mark ends the chain.
pub fn classify_fat_entry(fat_type: FatType, entry: u32, maximum_valid_cluster: u32) -> (r: Result<
    FileFatEntry,
    FatLookupError,
>)
    ensures
        r == classify(fat_type, entry, maximum_valid_cluster),
{
    if entry == 0 {
        Err(FatLookupError::FreeCluster)
    } else if entry == 1 {
        Err(FatLookupError::UnspecifiedEntryOne)
    } else if entry <= maximum_valid_cluster {
        Ok(FileFatEntry::AllocatedCluster(entry))
    } else if entry < fat_type.fat_entry_defective() {
        Err(FatLookupError::ReservedEntry)
    } else if entry == fat_type.fat_entry_defective() {
        Err(FatLookupError::DefectiveCluster)
    } else {
        Ok(FileFatEntry::EndOfFile)
    }
}

/// The offset of the table entry of cluster `n`, counted from the start of
/// the table.
pub open spec fn entry_position(fat_type: FatType, n: int) -> int {
    match fat_type {
        FatType::Fat32 => 4 * n,
        FatType::Fat16 => 2 * n,
        FatType::Fat12 => n + n / 2,
    }
}

/// The number of bytes that are read to learn one table entry.
pub open spec fn entry_width(fat_type: FatType) -> int {
    match fat_type {
        FatType::Fat32 => 4,
        FatType::Fat16 => 2,
        FatType::Fat12 => 2,
    }
}

/// The table entry of cluster `n`, given the bytes `raw` read at its
/// position: of 32 bits the lower 28, 16 bits as they are, and of the 16 bits
/// read for a 12-bit entry the lower 12 where `n` is even and the upper 12
/// where it is odd.
pub open spec fn entry_value(fat_type: FatType, n: int, raw: Seq<u8>) -> int {
    match fat_type {
        FatType::Fat32 => le_u32(raw, 0) % 0x1000_0000,
        FatType::Fat16 => le_u16(raw, 0),
        FatType::Fat12 => if n % 2 == 0 {
            le_u16(raw, 0) % 0x1000
        } else {
            le_u16(raw, 0) / 0x10
        },
    }
}

/// The offset of the table entry of cluster `n`, counted from the start of
/// the table.
pub fn fat_entry_position(fat_type: FatType, n: u32) -> (position: u64)
    ensures
        position == entry_position(fat_type, n as int),
        position <= 0x4_0000_0000,
{
    match fat_type {
        FatType::Fat32 => n as u64 * 4,
        FatType::Fat16 => n as u64 * 2,
        FatType::Fat12 => n as u64 + n as u64 / 2,
    }
}

/// The number of bytes that are read to learn one table entry.
pub fn fat_entry_width(fat_type: FatType) -> (width: usize)
    ensures
        width == entry_width(fat_type),
{
    match fat_type {
        FatType::Fat32 => 4,
        FatType::Fat16 => 2,
        FatType::Fat12 => 2,
    }
}

/// The table entry of cluster `n`, from the bytes read at its position.
pub fn decode_fat_entry(fat_type: FatType, n: u32, raw: &[u8]) -> (entry: u32)
    requires
        raw@.len() >= entry_width(fat_type),
    ensures
        entry == entry_value(fat_type, n as int, raw@),
{
    match fat_type {
        FatType::Fat32 => read_le_u32(raw, 0) % 0x1000_0000,
        FatType::Fat16 => read_le_u16(raw, 0) as u32,
        FatType::Fat12 => {
            let pair: u16 = read_le_u16(raw, 0);
            if n % 2 == 0 {
                (pair % 0x1000) as u32
            } else {
                (pair / 0x10) as u32
            }
        },
    }
}

} // verus!
