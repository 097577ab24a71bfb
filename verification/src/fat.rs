//! A reader for FAT12, FAT16 and FAT32 volumes.
//!
//! It finds a file by name in the root directory and follows the file's
//! cluster chain. Nothing is cached: every step reads what it needs through
//! the disk access layer.

pub mod bpb;
pub mod chain;
pub mod directory;
pub mod table;
pub mod volume;
