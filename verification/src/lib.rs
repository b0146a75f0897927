//! Read-only decoding and navigation of the on-disk metadata of an exFAT
//! volume: boot sector, FAT chains, cluster heap, allocation bitmap,
//! directory entry sets and the up-case table.
//!
//! Every function carries a contract over a mathematical model of the disk
//! (a map from sector numbers to sector contents) and is proved against it.

pub mod allocation_bitmap;
pub mod boot_sector;
pub mod bytes;
pub mod charsets;
pub mod checksum;
pub mod device;
pub mod directory;
pub mod endian;
pub mod error;
pub mod fat;
pub mod fs_parameter;
pub mod heap;
pub mod hint;
pub mod inode;
pub mod inode_dir_operations;
pub mod inode_file_operations;
pub mod math;
pub mod mount;
pub mod superblock;
pub mod upcase;
pub mod util;
