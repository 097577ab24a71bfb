//! The parameters of a volume.

use crate::bytes::{le_u16, le_u32, read_le_u16, read_le_u32};
use crate::fat::directory::DIRECTORY_ENTRY_BYTES;
use vstd::arithmetic::mul::lemma_mul_upper_bound;
use vstd::prelude::*;

verus! {

/// The size of the boot sector.
pub const BOOT_SECTOR_SIZE: usize = 512;

/// The width of the entries of the file allocation table.
#[derive(Clone, Copy, Debug, PartialEq, Eq, Structural)]
pub enum FatType {
    /// Entries of 12 bits.
    Fat12,
    /// Entries of 16 bits.
    Fat16,
    /// Entries of 32 bits, of which 28 count.
    Fat32,
}

impl FatType {
    /// The table entry that marks a cluster as defective.
    pub open spec fn defective(self) -> u32 {
        match self {
            FatType::Fat12 => 0xFF7,
            FatType::Fat16 => 0xFFF7,
            FatType::Fat32 => 0x0FFF_FFF7,
        }
    }

    /// The table entry that marks a cluster as defective. Every greater
    /// entry ends a chain.
    pub fn fat_entry_defective(self) -> (entry: u32)
        ensures
            entry == self.defective(),
    {
        match self {
            FatType::Fat12 => 0xFF7,
            FatType::Fat16 => 0xFFF7,
            FatType::Fat32 => 0x0FFF_FFF7,
        }
    }
}

/// The parameters of a volume, as its boot sector gives them.
#[derive(Clone, Copy, Debug, PartialEq, Eq, Structural)]
pub struct Bpb {
    /// The size of a sector in bytes.
    pub bytes_per_sector: u16,
    /// The number of sectors in a cluster.
    pub sectors_per_cluster: u8,
    /// The number of sectors before the first table.
    pub reserved_sector_count: u16,
    /// The number of copies of the table.
    pub num_fats: u8,
    /// The number of records in the root directory of a FAT12 or FAT16
    /// volume.
    pub root_entry_count: u16,
    /// The number of sectors of the volume, if it fits 16 bits, else 0.
    pub total_sectors_16: u16,
    /// The number of sectors of one table, if it fits 16 bits, else 0.
    pub fat_size_16: u16,
    /// The number of sectors of the volume, where the 16-bit field is 0.
    pub total_sectors_32: u32,
    /// The number of sectors of one table, where the 16-bit field is 0.
    pub fat_size_32: u32,
    /// The first cluster of the root directory of a FAT32 volume.
    pub root_cluster: u32,
}

impl Bpb {
    /// The parameters that the boot sector `sector` holds.
    pub open spec fn of(sector: Seq<u8>) -> Bpb {
        Bpb {
            bytes_per_sector: le_u16(sector, 11) as u16,
            sectors_per_cluster: sector[13],
            reserved_sector_count: le_u16(sector, 14) as u16,
            num_fats: sector[16],
            root_entry_count: le_u16(sector, 17) as u16,
            total_sectors_16: le_u16(sector, 19) as u16,
            fat_size_16: le_u16(sector, 22) as u16,
            total_sectors_32: le_u32(sector, 32) as u32,
            fat_size_32: le_u32(sector, 36) as u32,
            root_cluster: le_u32(sector, 44) as u32,
        }
    }

    /// Whether `sector` ends with the signature of a boot sector.
    pub open spec fn signed(sector: Seq<u8>) -> bool {
        sector.len() >= 512 && sector[510] == 0x55 && sector[511] == 0xAA
    }

    /// The number of sectors of one table.
    pub open spec fn fat_size(self) -> int {
        if self.fat_size_16 != 0 {
            self.fat_size_16 as int
        } else {
            self.fat_size_32 as int
        }
    }

    /// The number of sectors of the volume.
    pub open spec fn total_sectors(self) -> int {
        if self.total_sectors_16 != 0 {
            self.total_sectors_16 as int
        } else {
            self.total_sectors_32 as int
        }
    }

    /// The number of sectors that the root directory of a FAT12 or FAT16
    /// volume takes.
    pub open spec fn root_dir_sectors(self) -> int {
        (self.root_entry_count * 32 + (self.bytes_per_sector - 1)) / self.bytes_per_sector as int
    }

    /// The number of the sector with which the first cluster starts.
    pub open spec fn first_data_sector(self) -> int {
        self.reserved_sector_count + self.num_fats * self.fat_size() + self.root_dir_sectors()
    }

    /// Whether the parameters describe a volume: sectors of a whole number
    /// of 512 bytes, clusters and tables of at least one sector, at least
    /// one reserved sector, and room for the tables and the root directory.
    pub open spec fn valid(self) -> bool {
        &&& self.reserved_sector_count > 0
        &&& self.bytes_per_sector > 0
        &&& self.bytes_per_sector % 512 == 0
        &&& self.sectors_per_cluster > 0
        &&& self.fat_size() > 0
        &&& self.first_data_sector() <= self.total_sectors()
    }

    /// The number of clusters of the volume.
    pub open spec fn cluster_count(self) -> int {
        (self.total_sectors() - self.first_data_sector()) / self.sectors_per_cluster as int
    }

    /// The width of the table's entries, which the number of clusters
    /// decides.
    pub open spec fn spec_fat_type(self) -> FatType {
        if self.cluster_count() < 4085 {
            FatType::Fat12
        } else if self.cluster_count() < 65525 {
            FatType::Fat16
        } else {
            FatType::Fat32
        }
    }

    /// The greatest number that a cluster of the volume can have.
    pub open spec fn max_cluster(self) -> int {
        self.cluster_count() + 1
    }

    /// The size in bytes of the root directory of a FAT12 or FAT16 volume.
    pub open spec fn root_size(self) -> int {
        self.root_entry_count * 32
    }

    /// The offset in bytes of the root directory of a FAT12 or FAT16 volume.
    pub open spec fn root_offset(self) -> int {
        (self.reserved_sector_count + self.num_fats * self.fat_size()) * self.bytes_per_sector
    }

    /// The offset in bytes of the first table.
    pub open spec fn table_offset(self) -> int {
        self.reserved_sector_count * self.bytes_per_sector
    }

    /// The offset in bytes of the first cluster, which has the number 2.
    pub open spec fn clusters_offset(self) -> int {
        self.first_data_sector() * self.bytes_per_sector
    }

    /// The size of a cluster in bytes.
    pub open spec fn cluster_size(self) -> int {
        self.bytes_per_sector * self.sectors_per_cluster
    }

    /// Reads the parameters from the boot sector `sector`. There are none if
    /// the sector is short, lacks the signature, or holds parameters that
    /// describe no volume.
    pub fn parse(sector: &[u8]) -> (r: Option<Bpb>)
        ensures
            r is Some <==> Self::signed(sector@) && Self::of(sector@).valid(),
            r is Some ==> r->Some_0 == Self::of(sector@),
    {
        if sector.len() < BOOT_SECTOR_SIZE {
            return None;
        }
        if sector[510] != 0x55 || sector[511] != 0xAA {
            return None;
        }
        let bpb = Bpb {
            bytes_per_sector: read_le_u16(sector, 11),
            sectors_per_cluster: sector[13],
            reserved_sector_count: read_le_u16(sector, 14),
            num_fats: sector[16],
            root_entry_count: read_le_u16(sector, 17),
            total_sectors_16: read_le_u16(sector, 19),
            fat_size_16: read_le_u16(sector, 22),
            total_sectors_32: read_le_u32(sector, 32),
            fat_size_32: read_le_u32(sector, 36),
            root_cluster: read_le_u32(sector, 44),
        };
        if bpb.bytes_per_sector == 0 || bpb.bytes_per_sector % 512 != 0 {
            return None;
        }
        if bpb.reserved_sector_count == 0 || bpb.sectors_per_cluster == 0
            || bpb.fat_size_in_sectors() == 0 {
            return None;
        }
        if bpb.first_data_sector_number() > bpb.total_sector_count() as u64 {
            return None;
        }
        Some(bpb)
    }

    /// The number of sectors of one table.
    pub fn fat_size_in_sectors(&self) -> (sectors: u32)
        ensures
            sectors == self.fat_size(),
    {
        if self.fat_size_16 != 0 {
            self.fat_size_16 as u32
        } else {
            self.fat_size_32
        }
    }

    /// The number of sectors of the volume.
    pub fn total_sector_count(&self) -> (sectors: u32)
        ensures
            sectors == self.total_sectors(),
    {
        if self.total_sectors_16 != 0 {
            self.total_sectors_16 as u32
        } else {
            self.total_sectors_32
        }
    }

    /// The number of the sector with which the first cluster starts.
    pub fn first_data_sector_number(&self) -> (sector: u64)
        requires
            self.bytes_per_sector > 0,
        ensures
            sector == self.first_data_sector(),
            sector <= 0xff_0020_ff00,
            sector >= self.reserved_sector_count,
    {
        let fats: u64 = self.num_fats as u64;
        let fat_size: u64 = self.fat_size_in_sectors() as u64;
        proof {
            lemma_mul_upper_bound(fats as int, 0xff, fat_size as int, 0xffff_ffff);
        }
        let root_dir_sectors: u64 = (self.root_entry_count as u64 * 32 + (self.bytes_per_sector
            as u64 - 1)) / self.bytes_per_sector as u64;
        proof {
            let x = self.root_entry_count as int * 32;
            let b = self.bytes_per_sector as int;
            assert((x + (b - 1)) / b <= x + 1) by (nonlinear_arith)
                requires
                    0 <= x,
                    1 <= b,
            ;
        }
        self.reserved_sector_count as u64 + fats * fat_size + root_dir_sectors
    }

    /// The number of clusters of the volume.
    pub fn count_of_clusters(&self) -> (count: u32)
        requires
            self.valid(),
        ensures
            count == self.cluster_count(),
    {
        let data_sectors: u64 = self.total_sector_count() as u64 - self.first_data_sector_number();
        (data_sectors / self.sectors_per_cluster as u64) as u32
    }

    /// The width of the table's entries: 12 bits below 4085 clusters, 16 bits
    /// below 65525, else 32.
    pub fn fat_type(&self) -> (fat_type: FatType)
        requires
            self.valid(),
        ensures
            fat_type == self.spec_fat_type(),
    {
        let count: u32 = self.count_of_clusters();
        if count < 4085 {
            FatType::Fat12
        } else if count < 65525 {
            FatType::Fat16
        } else {
            FatType::Fat32
        }
    }

    /// The greatest number that a cluster of the volume can have.
    pub fn maximum_valid_cluster(&self) -> (cluster: u32)
        requires
            self.valid(),
        ensures
            cluster == self.max_cluster(),
    {
        let count: u32 = self.count_of_clusters();
        assert(count < 0xffff_ffff);
        count + 1
    }

    /// The size in bytes of the root directory of a FAT12 or FAT16 volume.
    pub fn root_directory_size(&self) -> (size: usize)
        ensures
            size == self.root_size(),
    {
        self.root_entry_count as usize * DIRECTORY_ENTRY_BYTES
    }

    /// The offset in bytes of the root directory of a FAT12 or FAT16 volume.
    pub fn root_directory_offset(&self) -> (offset: u64)
        ensures
            offset == self.root_offset(),
            self.bytes_per_sector % 512 == 0 ==> offset % 512 == 0,
    {
        let fats: u64 = self.num_fats as u64;
        let fat_size: u64 = self.fat_size_in_sectors() as u64;
        proof {
            lemma_mul_upper_bound(fats as int, 0xff, fat_size as int, 0xffff_ffff);
        }
        let sectors: u64 = self.reserved_sector_count as u64 + fats * fat_size;
        proof {
            lemma_mul_upper_bound(
                sectors as int,
                0xff_0000_ff00,
                self.bytes_per_sector as int,
                0xffff,
            );
            lemma_multiple_of_sector(sectors as int, self.bytes_per_sector as int);
        }
        sectors * self.bytes_per_sector as u64
    }

    /// The number of bytes that are read to have the root directory of a
    /// FAT12 or FAT16 volume: the sectors that hold it.
    pub fn root_directory_read_len(&self) -> (len: u64)
        requires
            self.bytes_per_sector > 0,
        ensures
            len == self.root_read_len(),
            len >= self.root_size(),
            self.bytes_per_sector % 512 == 0 ==> len % 512 == 0,
    {
        let sector_size: u64 = self.bytes_per_sector as u64;
        let size: u64 = self.root_entry_count as u64 * 32;
        let sectors: u64 = (size + (sector_size - 1)) / sector_size;
        proof {
            assert((size + (sector_size - 1)) / sector_size as int <= size + 1)
                by (nonlinear_arith)
                requires
                    sector_size >= 1,
                    size >= 0,
            ;
            lemma_mul_upper_bound(sectors as int, 0x20_0000, sector_size as int, 0xffff);
            lemma_multiple_of_sector(sectors as int, sector_size as int);
            assert(((size + (sector_size - 1)) / sector_size as int) * sector_size >= size)
                by (nonlinear_arith)
                requires
                    sector_size >= 1,
                    size >= 0,
            ;
        }
        sectors * sector_size
    }

    /// The offset in bytes of the first table.
    pub fn fat_offset(&self) -> (offset: u64)
        ensures
            offset == self.table_offset(),
            offset <= 0xfffe_0001,
    {
        proof {
            lemma_mul_upper_bound(
                self.reserved_sector_count as int,
                0xffff,
                self.bytes_per_sector as int,
                0xffff,
            );
        }
        self.reserved_sector_count as u64 * self.bytes_per_sector as u64
    }

    /// The offset in bytes of the first cluster.
    pub fn data_offset(&self) -> (offset: u64)
        requires
            self.valid(),
        ensures
            offset == self.clusters_offset(),
            offset <= 0x1_0000_0000 * 0xffff,
    {
        let sector: u64 = self.first_data_sector_number();
        proof {
            lemma_mul_upper_bound(
                sector as int,
                0xffff_ffff,
                self.bytes_per_sector as int,
                0xffff,
            );
        }
        sector * self.bytes_per_sector as u64
    }

    /// The size of a cluster in bytes.
    pub fn bytes_per_cluster(&self) -> (size: u32)
        ensures
            size == self.cluster_size(),
            size <= 0xfe_ff01,
    {
        proof {
            lemma_mul_upper_bound(
                self.bytes_per_sector as int,
                0xffff,
                self.sectors_per_cluster as int,
                0xff,
            );
        }
        self.bytes_per_sector as u32 * self.sectors_per_cluster as u32
    }

    /// The number of bytes that are read to have the root directory of a
    /// FAT12 or FAT16 volume: the directory's sectors.
    pub open spec fn root_read_len(self) -> int {
        self.root_dir_sectors() * self.bytes_per_sector
    }
}

/// A whole number of sectors of a whole number of 512 bytes is a whole
/// number of 512 bytes.
pub proof fn lemma_multiple_of_sector(sectors: int, bytes_per_sector: int)
    requires
        0 <= sectors,
        0 <= bytes_per_sector,
    ensures
        bytes_per_sector % 512 == 0 ==> (sectors * bytes_per_sector) % 512 == 0,
{
    if bytes_per_sector % 512 == 0 {
        let k = bytes_per_sector / 512;
        assert(bytes_per_sector == 512 * k);
        assert(sectors * bytes_per_sector == 512 * (sectors * k)) by (nonlinear_arith)
            requires
                bytes_per_sector == 512 * k,
        ;
    }
}

} // verus!
