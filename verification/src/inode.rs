//! The slice of an ext4 inode that the extent-tree reader consumes: its
//! number, its generation counter, whether it uses an extent tree at all, and
//! the 60 bytes where the tree's root node is stored inline.
//!
//! Locating an inode on disk goes through the block-group machinery and stays
//! outside this core; parsing the fixed-layout record once it is in memory is
//! done here.

use vstd::prelude::*;

use crate::bytes::{le32_at, read_le32};
use crate::errors::Ext4Error;

verus! {

/// The inode flag that declares the inode stores an extent tree.
pub const EXT4_EXTENTS_FL: u32 = 0x8_0000;

/// Byte offset of the flags word within an inode record.
pub const INODE_FLAGS_OFFSET: usize = 32;

/// Byte offset of the 60-byte inline block area within an inode record.
pub const INODE_BLOCK_OFFSET: usize = 40;

/// Byte offset of the generation counter within an inode record.
pub const INODE_GENERATION_OFFSET: usize = 100;

/// What the extent-tree reader needs from one opened inode.
pub struct Inode {
    /// The inode number, second ingredient of every extent-block checksum.
    pub number: u32,
    /// The inode generation, third ingredient of every extent-block checksum.
    pub generation: u32,
    /// Whether the inode declares the extents flag; without it the tree
    /// loader reports "not applicable" and the caller falls back to classic
    /// indirect blocks.
    pub uses_extents: bool,
    /// The 60 bytes that held classic indirect pointers and now hold the
    /// root node of the extent tree.
    pub i_block: Vec<u8>,
}

impl Inode {
    /// A well-formed inode carries the full 60-byte inline area.
    pub open spec fn wf(&self) -> bool {
        self.i_block@.len() == 60
    }

    /// Parses the fields this core needs out of one in-memory inode record.
    ///
    /// The record must hold at least the classic 128-byte layout; the flags
    /// word sits at byte 32, the inline block area at bytes 40..100, and the
    /// generation counter at byte 100.
    pub fn parse_record(number: u32, record: &Vec<u8>) -> (r: Result<Inode, Ext4Error>)
        ensures
            record@.len() >= 128 ==> (r matches Ok(ino) && ino.wf() && ino.number == number
                && ino.generation == le32_at(record@, 100) && ino.uses_extents == (le32_at(
                record@,
                32,
            ) & EXT4_EXTENTS_FL != 0) && ino.i_block@ == record@.subrange(40, 100)),
            record@.len() < 128 ==> r == Err::<Inode, Ext4Error>(Ext4Error::CorruptMetadata),
    {
        if record.len() < 128 {
            return Err(Ext4Error::CorruptMetadata);
        }
        let flags = read_le32(record, INODE_FLAGS_OFFSET);
        let generation = read_le32(record, INODE_GENERATION_OFFSET);
        let mut i_block: Vec<u8> = Vec::new();
        let mut i: usize = 0;
        while i < 60
            invariant
                i <= 60,
            record@.len() >= 128,
                i_block@ == record@.subrange(40, 40 + i),
            decreases 60 - i,
        {
            let n = record.len();
            assert(40 + i < n);
            i_block.push(record[40 + i]);
            i = i + 1;
            assert(i_block@ =~= record@.subrange(40, 40 + i));
        }
        Ok(Inode { number, generation, uses_extents: flags & EXT4_EXTENTS_FL != 0, i_block })
    }

    /// Builds an inode handle directly from its four fields, the shape the
    /// inode reader of the boot path hands over.
    pub fn new(number: u32, generation: u32, uses_extents: bool, i_block: Vec<u8>) -> (r: Result<
        Inode,
        Ext4Error,
    >)
        ensures
            i_block@.len() == 60 ==> (r matches Ok(ino) && ino.wf() && ino.number == number
                && ino.generation == generation && ino.uses_extents == uses_extents
                && ino.i_block@ == i_block@),
            i_block@.len() != 60 ==> r == Err::<Inode, Ext4Error>(Ext4Error::CorruptMetadata),
    {
        if i_block.len() != 60 {
            return Err(Ext4Error::CorruptMetadata);
        }
        Ok(Inode { number, generation, uses_extents, i_block })
    }
}

} // verus!
