//! The partition table as the boot sector reads it.

use crate::bytes::{le_bytes, le_u16, le_u32, read_le_u32};
use crate::disk_access::{ChunkedRead, DiskAccessPacket, TARGET_OUT_OF_REACH};
use crate::fail::Failure;
use vstd::prelude::*;

verus! {

/// The size of one record of the partition table.
pub const PARTITION_ENTRY_SIZE: usize = 16;

/// The value of a record's first byte that marks the partition as bootable.
pub const BOOTABLE_FLAG: u8 = 0x80;

/// One record of the partition table, with its type byte as stored.
#[derive(Clone, Copy, Debug, PartialEq, Eq, Structural)]
pub struct Partition {
    /// Whether the partition is marked bootable.
    pub bootable: bool,
    /// The type byte.
    pub partition_type: u8,
    /// The first sector of the partition.
    pub logical_block_address: u32,
    /// The number of sectors.
    pub sector_count: u32,
}

impl Partition {
    /// The record with the given fields.
    pub fn new(
        bootable: bool,
        partition_type: u8,
        logical_block_address: u32,
        sector_count: u32,
    ) -> (partition: Partition)
        ensures
            partition == (Partition {
                bootable,
                partition_type,
                logical_block_address,
                sector_count,
            }),
    {
        Partition { bootable, partition_type, logical_block_address, sector_count }
    }
}

/// The record that the 16 bytes at `offset` of `table` hold.
pub open spec fn partition_at(table: Seq<u8>, offset: int) -> Partition {
    Partition {
        bootable: table[offset] == BOOTABLE_FLAG,
        partition_type: table[offset + 4],
        logical_block_address: le_u32(table, offset + 8) as u32,
        sector_count: le_u32(table, offset + 12) as u32,
    }
}

/// What reading record `index` of `table` gives: the record, or the code of
/// the first field that the table is too short for.
pub open spec fn get_partition_spec(table: Seq<u8>, index: int) -> Result<Partition, Failure> {
    let offset = index * 16;
    let rest = table.len() - offset;
    if rest < 0 {
        Err(Failure { code: 0x63 })
    } else if rest == 0 {
        Err(Failure { code: 0x64 })
    } else if rest < 12 {
        Err(Failure { code: 0x65 })
    } else if rest < 16 {
        Err(Failure { code: 0x66 })
    } else {
        Ok(partition_at(table, offset))
    }
}

/// Reads record `index` of the partition table `partitions`.
///
/// A table that ends before the record starts fails with `c`, one that ends
/// where it starts with `d`, one that ends before the start sector is
/// complete with `e`, one that ends before the sector count is complete with
/// `f`.
pub fn get_partition(partitions: &[u8], index: usize) -> (r: Result<Partition, Failure>)
    ensures
        r == get_partition_spec(partitions@, index as int),
{
    let len = partitions.len();
    if index > len / PARTITION_ENTRY_SIZE {
        return Err(Failure { code: 0x63 });
    }
    let offset = index * PARTITION_ENTRY_SIZE;
    if offset > len {
        return Err(Failure { code: 0x63 });
    }
    let rest = len - offset;
    if rest == 0 {
        return Err(Failure { code: 0x64 });
    }
    if rest < 12 {
        return Err(Failure { code: 0x65 });
    }
    if rest < 16 {
        return Err(Failure { code: 0x66 });
    }
    let bootable = partitions[offset] == BOOTABLE_FLAG;
    let partition_type = partitions[offset + 4];
    let lba = read_le_u32(partitions, offset + 8);
    let count = read_le_u32(partitions, offset + 12);
    Ok(Partition::new(bootable, partition_type, lba, count))
}

/// The code shown when the stage behind the boot sector returns.
pub const STAGE_RETURNED: u8 = 0x52;

impl Partition {
    /// The record's 16 bytes: the boot flag, three bytes of zero, the type,
    /// three bytes of zero, then first sector and sector count, each least
    /// significant byte first.
    pub open spec fn wire(self) -> Seq<u8> {
        seq![
            if self.bootable {
                BOOTABLE_FLAG
            } else {
                0u8
            },
            0u8,
            0u8,
            0u8,
            self.partition_type,
            0u8,
            0u8,
            0u8,
        ] + le_bytes(self.logical_block_address as int, 4) + le_bytes(self.sector_count as int, 4)
    }

    /// The record as it stands in a partition table.
    pub fn to_bytes(&self) -> (bytes: [u8; 16])
        ensures
            bytes@ == self.wire(),
            partition_at(bytes@, 0) == *self,
    {
        let a0: u32 = self.logical_block_address;
        let a1: u32 = a0 / 0x100;
        let a2: u32 = a1 / 0x100;
        let a3: u32 = a2 / 0x100;
        let c0: u32 = self.sector_count;
        let c1: u32 = c0 / 0x100;
        let c2: u32 = c1 / 0x100;
        let c3: u32 = c2 / 0x100;
        let flag: u8 = if self.bootable {
            BOOTABLE_FLAG
        } else {
            0
        };
        let bytes: [u8; 16] = [
            flag,
            0,
            0,
            0,
            self.partition_type,
            0,
            0,
            0,
            (a0 % 0x100) as u8,
            (a1 % 0x100) as u8,
            (a2 % 0x100) as u8,
            (a3 % 0x100) as u8,
            (c0 % 0x100) as u8,
            (c1 % 0x100) as u8,
            (c2 % 0x100) as u8,
            (c3 % 0x100) as u8,
        ];
        proof {
            reveal_with_fuel(le_bytes, 5);
            assert(bytes@ =~= self.wire());
            lemma_wire_round_trip(*self);
        }
        bytes
    }

    /// The read that loads the whole partition into the memory at
    /// `target_address`.
    pub fn load_request(&self, target_address: u32) -> (read: ChunkedRead)
        ensures
            read == (ChunkedRead {
                next_lba: self.logical_block_address as u64,
                remaining: self.sector_count as u64,
                target_addr: target_address,
            }),
            read.in_range(),
    {
        ChunkedRead::new(
            self.logical_block_address as u64,
            self.sector_count as u64,
            target_address,
        )
    }
}

/// A record that is written out and read back is the same record.
pub proof fn lemma_wire_round_trip(partition: Partition)
    ensures
        partition.wire().len() == 16,
        partition_at(partition.wire(), 0) == partition,
        get_partition_spec(partition.wire(), 0) == Ok::<Partition, Failure>(partition),
{
    reveal_with_fuel(le_bytes, 5);
    let wire = partition.wire();
    let a0 = partition.logical_block_address as int;
    let a1 = a0 / 0x100;
    let a2 = a1 / 0x100;
    let a3 = a2 / 0x100;
    let c0 = partition.sector_count as int;
    let c1 = c0 / 0x100;
    let c2 = c1 / 0x100;
    let c3 = c2 / 0x100;
    assert(wire.len() == 16);
    assert(wire[8] == (a0 % 0x100) as u8 && wire[9] == (a1 % 0x100) as u8 && wire[10] == (a2
        % 0x100) as u8 && wire[11] == (a3 % 0x100) as u8);
    assert(wire[12] == (c0 % 0x100) as u8 && wire[13] == (c1 % 0x100) as u8 && wire[14] == (c2
        % 0x100) as u8 && wire[15] == (c3 % 0x100) as u8);
    assert(le_u16(wire, 8) == a0 % 0x100 + 0x100 * (a1 % 0x100));
    assert(le_u16(wire, 10) == a2 % 0x100 + 0x100 * (a3 % 0x100));
    assert(le_u16(wire, 12) == c0 % 0x100 + 0x100 * (c1 % 0x100));
    assert(le_u16(wire, 14) == c2 % 0x100 + 0x100 * (c3 % 0x100));
}

/// What the boot sector has to do to load the next stage from the first
/// partition of `partition_table` to `target_address`: the firmware
/// requests, or the failure.
pub open spec fn stage0_spec(partition_table: Seq<u8>, target_address: u32) -> Result<
    Seq<DiskAccessPacket>,
    Failure,
> {
    match get_partition_spec(partition_table, 0) {
        Err(failure) => Err(failure),
        Ok(partition) => {
            let read = ChunkedRead {
                next_lba: partition.logical_block_address as u64,
                remaining: partition.sector_count as u64,
                target_addr: target_address,
            };
            if read.addressable() {
                Ok(read.packets())
            } else {
                Err(Failure { code: TARGET_OUT_OF_REACH })
            }
        },
    }
}

/// The work of the boot sector: reads the first record of its partition
/// table and gives the firmware requests that load the partition, 32
/// sectors at a time, to `target_address`.
///
/// A table too short for the record fails with the record's code, and a
/// request whose destination no segment can name fails with `a`.
pub fn stage0(partition_table: &[u8], target_address: u32) -> (r: Result<
    Vec<DiskAccessPacket>,
    Failure,
>)
    ensures
        match stage0_spec(partition_table@, target_address) {
            Ok(packets) => r is Ok && r->Ok_0@ == packets,
            Err(failure) => r == Err::<Vec<DiskAccessPacket>, Failure>(failure),
        },
{
    let partition = get_partition(partition_table, 0)?;
    partition.load_request(target_address).collect()
}

} // verus!
