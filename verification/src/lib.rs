//! Verified logic of a legacy-BIOS x86 boot pipeline.
//!
//! The crate holds everything the boot stages decide or compute: how a disk
//! read is cut into firmware requests, how a FAT volume is searched and a
//! cluster chain followed, which video mode is chosen, how the firmware's
//! memory map is collected and normalised, what the descriptor and page
//! tables hold, and through which steps the processor changes its mode. The
//! instructions that talk to firmware and processor stay with the caller,
//! which hands plain values in and takes plain values back.
//!
//! - [`disk_access`] cuts reads into firmware requests; [`memory_disk`]
//!   answers such requests from a disk image in memory.
//! - [`mbr`] and [`partition`] read the partition table, as the boot sector
//!   and the stage behind it do; [`image`] lays out the disk that they read.
//! - [`fat`] reads the boot volume, and [`load_file`] loads a file from it.
//! - [`vesa`] chooses the video mode, [`memory_map`] collects the memory
//!   map, [`stage1`] and [`stage3`] hold what else those stages work out,
//!   and [`boot_info`] is what the stages hand on.
//! - [`mode`], [`gdt`] and [`paging`] describe the changes of mode and the
//!   tables they need; [`address`], [`segmentation`] and
//!   [`privilege_level`] are the processor's addresses and selectors.
//! - [`fail`] names the codes of a boot that cannot go on; [`bytes`] and
//!   [`bits`] read numbers from bytes and bits from numbers.

pub mod address;
pub mod bits;
pub mod boot_info;
pub mod bytes;
pub mod disk_access;
pub mod fail;
pub mod fat;
pub mod gdt;
pub mod image;
pub mod load_file;
pub mod mbr;
pub mod memory_disk;
pub mod memory_map;
pub mod mode;
pub mod paging;
pub mod partition;
pub mod privilege_level;
pub mod segmentation;
pub mod stage1;
pub mod stage3;
pub mod vesa;
