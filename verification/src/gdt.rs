//! Segment descriptors and the descriptor tables of the boot stages.

use vstd::prelude::*;

verus! {

/// Bits 0 to 23 of the base address.
pub const BASE_ADDRESS_0_23: u64 = 0x0000_00FF_FFFF_0000;

/// Bits 24 to 31 of the base address.
pub const BASE_ADDRESS_24_31: u64 = 0xFF00_0000_0000_0000;

/// Bits 0 to 15 of the segment limit.
pub const SEGMENT_LIMIT_0_15: u64 = 0x0000_0000_0000_FFFF;

/// Bits 16 to 19 of the segment limit.
pub const SEGMENT_LIMIT_16_19: u64 = 0x000F_0000_0000_0000;

/// Granularity: the limit counts pages of 4096 bytes.
pub const GRANULARITY: u64 = 0x0080_0000_0000_0000;

/// Default operand size: the segment is a 32-bit segment. Clear in a 64-bit
/// code segment.
pub const DEFAULT_OP_SIZE: u64 = 0x0040_0000_0000_0000;

/// Long mode: the segment is a 64-bit code segment.
pub const LONG_MODE: u64 = 0x0020_0000_0000_0000;

/// Available to the operating system.
pub const AVAILABLE: u64 = 0x0010_0000_0000_0000;

/// Present: set for every segment in use.
pub const PRESENT: u64 = 0x0000_8000_0000_0000;

/// The privilege level that access to the segment takes.
pub const DESCRIPTOR_PRIVILEGE_LEVEL: u64 = 0x0000_6000_0000_0000;

/// Set for a code or data segment, clear for a system segment.
pub const USER_SEGMENT: u64 = 0x0000_1000_0000_0000;

/// Set for a code segment, clear for a data segment.
pub const EXECUTABLE: u64 = 0x0000_0800_0000_0000;

/// A conforming code segment, or a data segment that grows downwards.
pub const CONFORMING: u64 = 0x0000_0400_0000_0000;

/// A writable data segment, or a readable code segment.
pub const WRITABLE: u64 = 0x0000_0200_0000_0000;

/// Set by the processor when the segment is used.
pub const ACCESSED: u64 = 0x0000_0100_0000_0000;

/// The flags of a flat 32-bit kernel data segment: a present, writable
/// segment of code or data that spans 4 GiB.
pub const KERNEL_DATA: u64 = 0x00CF_9200_0000_FFFF;

/// The flags of a flat 32-bit kernel code segment.
pub const KERNEL_CODE32: u64 = 0x00CF_9A00_0000_FFFF;

/// The flags of a 64-bit kernel code segment.
pub const KERNEL_CODE64: u64 = 0x0020_9B00_0000_0000;

/// The flags of a kernel data segment for 64-bit mode.
pub const KERNEL_DATA64: u64 = 0x0000_9300_0000_0000;

/// The selector of the code segment in the tables of the boot stages.
pub const CODE_SELECTOR: u16 = 0x08;

/// The selector of the data segment in the tables of the boot stages.
pub const DATA_SELECTOR: u16 = 0x10;

/// The limit of a table of three descriptors: its size less one.
pub const TABLE_LIMIT: u16 = 23;

/// The flags of a segment descriptor.
#[derive(Clone, Copy, Debug, PartialEq, Eq, Structural)]
pub struct DescriptorFlags {
    bits: u64,
}

impl DescriptorFlags {
    /// The descriptor as a number.
    pub closed spec fn view(self) -> u64 {
        self.bits
    }

    /// Whether every flag of `other` is set.
    pub open spec fn has(self, other: u64) -> bool {
        self@ & other == other
    }

    /// The flags that `bits` holds. Every bit of a descriptor is a flag, so
    /// none is dropped.
    pub fn from_bits_truncate(bits: u64) -> (flags: DescriptorFlags)
        ensures
            flags@ == bits,
    {
        DescriptorFlags { bits }
    }

    /// The flags as a number.
    pub fn bits(&self) -> (bits: u64)
        ensures
            bits == self@,
    {
        self.bits
    }

    /// Whether every flag of `other` is set.
    pub fn contains(&self, other: DescriptorFlags) -> (all: bool)
        ensures
            all == self.has(other@),
    {
        self.bits & other.bits == other.bits
    }

    /// The flags of both.
    pub fn union(self, other: DescriptorFlags) -> (both: DescriptorFlags)
        ensures
            both@ == self@ | other@,
    {
        DescriptorFlags { bits: self.bits | other.bits }
    }

    /// The flags of a flat 32-bit kernel data segment.
    pub fn kernel_data() -> (flags: DescriptorFlags)
        ensures
            flags@ == KERNEL_DATA,
            flags@ == USER_SEGMENT | PRESENT | WRITABLE | DEFAULT_OP_SIZE | SEGMENT_LIMIT_0_15
                | SEGMENT_LIMIT_16_19 | GRANULARITY,
    {
        assert(0x00CF_9200_0000_FFFFu64 == 0x0000_1000_0000_0000u64 | 0x0000_8000_0000_0000u64
            | 0x0000_0200_0000_0000u64 | 0x0040_0000_0000_0000u64 | 0x0000_0000_0000_FFFFu64
            | 0x000F_0000_0000_0000u64 | 0x0080_0000_0000_0000u64) by (bit_vector);
        DescriptorFlags { bits: KERNEL_DATA }
    }

    /// The flags of a flat 32-bit kernel code segment: those of the data
    /// segment, and executable.
    pub fn kernel_code32() -> (flags: DescriptorFlags)
        ensures
            flags@ == KERNEL_CODE32,
            flags@ == KERNEL_DATA | EXECUTABLE,
    {
        assert(0x00CF_9A00_0000_FFFFu64 == 0x00CF_9200_0000_FFFFu64 | 0x0000_0800_0000_0000u64)
            by (bit_vector);
        DescriptorFlags { bits: KERNEL_CODE32 }
    }

    /// The flags of a 64-bit kernel code segment: present, executable and in
    /// long mode, with the default operand size clear.
    pub fn kernel_code64() -> (flags: DescriptorFlags)
        ensures
            flags@ == KERNEL_CODE64,
            flags@ == USER_SEGMENT | PRESENT | WRITABLE | ACCESSED | EXECUTABLE | LONG_MODE,
            flags@ & DEFAULT_OP_SIZE == 0,
    {
        assert(0x0020_9B00_0000_0000u64 == 0x0000_1000_0000_0000u64 | 0x0000_8000_0000_0000u64
            | 0x0000_0200_0000_0000u64 | 0x0000_0100_0000_0000u64 | 0x0000_0800_0000_0000u64
            | 0x0020_0000_0000_0000u64 && 0x0020_9B00_0000_0000u64 & 0x0040_0000_0000_0000u64 == 0)
            by (bit_vector);
        DescriptorFlags { bits: KERNEL_CODE64 }
    }

    /// The flags of a kernel data segment for 64-bit mode: present and
    /// writable.
    pub fn kernel_data64() -> (flags: DescriptorFlags)
        ensures
            flags@ == KERNEL_DATA64,
            flags@ == USER_SEGMENT | PRESENT | WRITABLE | ACCESSED,
    {
        assert(0x0000_9300_0000_0000u64 == 0x0000_1000_0000_0000u64 | 0x0000_8000_0000_0000u64
            | 0x0000_0200_0000_0000u64 | 0x0000_0100_0000_0000u64) by (bit_vector);
        DescriptorFlags { bits: KERNEL_DATA64 }
    }
}

/// What the processor is told of a descriptor table: its limit and where it
/// lies.
#[derive(Clone, Copy, Debug, PartialEq, Eq, Structural)]
pub struct DescriptorTablePointer {
    /// The size of the table in bytes, less one.
    pub limit: u16,
    /// The address of the table.
    pub base: u32,
}

/// The descriptor table for 32-bit protected mode: the null descriptor, a
/// code segment and a data segment.
#[derive(Clone, Copy, Debug, PartialEq, Eq, Structural)]
pub struct GtdProtectedMode {
    /// The null descriptor.
    pub zero: u64,
    /// The code segment, which the selector 0x08 names.
    pub code: u64,
    /// The data segment, which the selector 0x10 names.
    pub data: u64,
}

impl GtdProtectedMode {
    /// The table with flat 32-bit kernel segments.
    pub fn new() -> (table: GtdProtectedMode)
        ensures
            table == (GtdProtectedMode { zero: 0, code: KERNEL_CODE32, data: KERNEL_DATA }),
    {
        GtdProtectedMode {
            zero: 0,
            code: DescriptorFlags::kernel_code32().bits(),
            data: DescriptorFlags::kernel_data().bits(),
        }
    }

    /// What the processor is told of the table when it lies at `base`.
    pub fn pointer(&self, base: u32) -> (pointer: DescriptorTablePointer)
        ensures
            pointer == (DescriptorTablePointer { limit: TABLE_LIMIT, base }),
    {
        DescriptorTablePointer { limit: TABLE_LIMIT, base }
    }
}

/// The descriptor table for 64-bit long mode: the null descriptor, a code
/// segment and a data segment.
#[derive(Clone, Copy, Debug, PartialEq, Eq, Structural)]
pub struct GtdLongMode {
    /// The null descriptor.
    pub zero: u64,
    /// The code segment, which the selector 0x08 names.
    pub code: u64,
    /// The data segment, which the selector 0x10 names.
    pub data: u64,
}

impl GtdLongMode {
    /// The table with 64-bit kernel segments.
    pub fn new() -> (table: GtdLongMode)
        ensures
            table == (GtdLongMode { zero: 0, code: KERNEL_CODE64, data: KERNEL_DATA64 }),
    {
        GtdLongMode {
            zero: 0,
            code: DescriptorFlags::kernel_code64().bits(),
            data: DescriptorFlags::kernel_data64().bits(),
        }
    }

    /// What the processor is told of the table when it lies at `base`.
    pub fn pointer(&self, base: u32) -> (pointer: DescriptorTablePointer)
        ensures
            pointer == (DescriptorTablePointer { limit: TABLE_LIMIT, base }),
    {
        DescriptorTablePointer { limit: TABLE_LIMIT, base }
    }
}

} // verus!
