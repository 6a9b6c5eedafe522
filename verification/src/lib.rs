//! A verified core for a BIOS-stage bootloader's filesystem path: the ext4
//! extent-tree reader and the partition-table dispatch that feeds it, together
//! with the block-device boundary they consume and the small decision logic of
//! the firmware bring-up (A20 gate, PS/2 controller) expressed as data.
//!
//! The hardware edges themselves (port I/O, BIOS calls, framebuffer writes)
//! cannot be verified and live outside this crate; everything here is pure
//! logic over bytes and over the [`device::BlockDevice`] interface.

pub mod a20;
pub mod bytes;
pub mod crc32c;
pub mod device;
pub mod errors;
pub mod extent;
pub mod inode;
pub mod irq;
pub mod partitions;
pub mod ps2;
pub mod superblock;
