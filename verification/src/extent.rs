//! The ext4 extent tree: on-disk shapes, loading, and logical-to-physical
//! block lookup.
//!
//! An extent tree maps file-relative block numbers to disk block numbers. Its
//! root node lives in the 60 inline bytes of the inode; interior nodes live in
//! full disk blocks that carry a CRC32C tail over the filesystem UUID, the
//! inode number and generation, and the block body. Loading walks the tree
//! depth first, collects the leaf extents, sorts them by first logical block
//! and checks they do not overlap; lookups then binary search the sorted list.

use vstd::prelude::*;

use crate::bytes::{le16_at, le32_at, push_le32, read_le16, read_le32, u32_le_bytes};
use crate::crc32c::{crc32c_calc, crc32c_of};
use crate::device::{
    fs_block_defined, read_fs_block, sat_u64, spec_fs_block, BlockDevice,
};
use crate::errors::{Ext4Error, IoError};
use crate::inode::Inode;
use crate::superblock::Ext4Volume;

verus! {

/// The magic value every extent-tree node header must carry.
pub const EXT4_EXTENT_MAGIC: u16 = 0xF30A;

/// The deepest tree any header may declare.
pub const EXT4_EXTENT_MAX_DEPTH: u16 = 5;

/// Size of an [`ExtentHeader`] on disk, in bytes.
pub const EXTENT_HEADER_SIZE: usize = 12;

/// Size of an [`Extent`] or an [`ExtentIdx`] record on disk, in bytes.
pub const EXTENT_ENTRY_SIZE: usize = 12;

/// Depth of a node in the extent tree: 0 marks a leaf node, anything above
/// [`EXT4_EXTENT_MAX_DEPTH`] is corrupt.
#[derive(Clone, Copy, Debug, PartialEq, Eq, Structural)]
pub struct Ext4ExtentHeaderDepth(pub u16);

impl Ext4ExtentHeaderDepth {
    /// Changes the depth; depths above [`EXT4_EXTENT_MAX_DEPTH`] are refused.
    pub fn set_depth(&mut self, new_depth: u16) -> (r: Result<(), IoError>)
        ensures
            new_depth <= EXT4_EXTENT_MAX_DEPTH ==> r is Ok && final(self).0 == new_depth,
            new_depth > EXT4_EXTENT_MAX_DEPTH ==> r == Err::<(), IoError>(IoError::InvalidCommand)
                && final(self).0 == old(self).0,
    {
        if new_depth > EXT4_EXTENT_MAX_DEPTH {
            return Err(IoError::InvalidCommand);
        }
        self.0 = new_depth;
        Ok(())
    }
}

/// Number of blocks a leaf extent covers. Raw values `1..=32768` denote an
/// initialized extent of that length; `32769..=65535` denote an uninitialized
/// extent of length `raw - 32768`, whose blocks read as zeros.
#[derive(Clone, Copy, Debug, PartialEq, Eq, Structural)]
pub struct Ext4ExtentLength(pub u16);

impl Ext4ExtentLength {
    /// The number of blocks actually covered, initialized or not.
    pub open spec fn spec_effective(self) -> int {
        if self.0 <= 32768 {
            self.0 as int
        } else {
            self.0 - 32768
        }
    }

    /// Whether the covered blocks hold data on disk, rather than reading as
    /// zeros.
    pub fn is_initialized(self) -> (r: bool)
        ensures
            r == (self.0 <= 32768),
    {
        self.0 <= 32768
    }

    /// The number of blocks covered by the associated extent, whether it is
    /// initialized or not.
    pub fn length(self) -> (r: u16)
        ensures
            r as int == self.spec_effective(),
    {
        if self.is_initialized() {
            self.0
        } else {
            self.0 - 32768
        }
    }
}

/// Header that opens every node of the extent tree, inline or on disk.
#[derive(Clone, Copy, Debug, PartialEq, Eq, Structural)]
pub struct ExtentHeader {
    /// Magic number; must equal [`EXT4_EXTENT_MAGIC`].
    pub magic: u16,
    /// Number of valid entries following the header.
    pub entries: u16,
    /// Maximum number of entries that could follow the header.
    pub max: u16,
    /// Depth of this node; 0 means the entries are leaf extents.
    pub depth: Ext4ExtentHeaderDepth,
    /// Generation of the tree, opaque to the reader.
    pub generation: u32,
}

/// The header encoded at byte `off` of `s`.
pub open spec fn spec_header_at(s: Seq<u8>, off: int) -> ExtentHeader {
    ExtentHeader {
        magic: le16_at(s, off),
        entries: le16_at(s, off + 2),
        max: le16_at(s, off + 4),
        depth: Ext4ExtentHeaderDepth(le16_at(s, off + 6)),
        generation: le32_at(s, off + 8),
    }
}

/// Whether a header may open a node: right magic, bounded depth, entry count
/// within the node's capacity.
pub open spec fn spec_header_ok(h: ExtentHeader) -> bool {
    h.magic == EXT4_EXTENT_MAGIC && h.depth.0 <= EXT4_EXTENT_MAX_DEPTH && h.entries <= h.max
}

impl ExtentHeader {
    /// Checks if this header corresponds to leaf nodes.
    pub fn is_leaf(&self) -> (r: bool)
        ensures
            r == (self.depth.0 == 0),
    {
        self.depth.0 == 0
    }

    /// Loads an `ExtentHeader` from raw bytes, refusing a wrong magic.
    pub fn load(h_bytes: &Vec<u8>) -> (r: Option<ExtentHeader>)
        requires
            h_bytes@.len() >= EXTENT_HEADER_SIZE,
        ensures
            le16_at(h_bytes@, 0) == EXT4_EXTENT_MAGIC ==> r == Some(spec_header_at(h_bytes@, 0)),
            le16_at(h_bytes@, 0) != EXT4_EXTENT_MAGIC ==> r is None,
    {
        let magic = read_le16(h_bytes, 0);
        if magic != EXT4_EXTENT_MAGIC {
            return None;
        }
        Some(
            ExtentHeader {
                magic,
                entries: read_le16(h_bytes, 2),
                max: read_le16(h_bytes, 4),
                depth: Ext4ExtentHeaderDepth(read_le16(h_bytes, 6)),
                generation: read_le32(h_bytes, 8),
            },
        )
    }
}

/// A leaf record of the extent tree: a run of `len` file blocks starting at
/// logical block `block`, backed by the 48-bit physical block number split
/// into `start_lo` and `start_hi`.
#[derive(Clone, Copy, Debug, PartialEq, Eq, Structural)]
pub struct Extent {
    /// First file block number that this extent covers.
    pub block: u32,
    /// Number of blocks covered, with the uninitialized encoding of
    /// [`Ext4ExtentLength`].
    pub len: Ext4ExtentLength,
    /// High 16 bits of the physical block number this extent points to.
    pub start_hi: u16,
    /// Low 32 bits of the physical block number this extent points to.
    pub start_lo: u32,
}

/// The physical block number an extent starts at.
pub open spec fn spec_start_blk(e: Extent) -> int {
    e.start_lo as int + 0x1_0000_0000 * (e.start_hi as int)
}

/// Whether logical block `b` falls in the half-open range an extent covers.
pub open spec fn spec_covers(e: Extent, b: u64) -> bool {
    e.block <= b && (b as int) < e.block as int + e.len.spec_effective()
}

impl Extent {
    /// The physical block number this extent starts at.
    pub fn start_blk(&self) -> (r: u64)
        ensures
            r as int == spec_start_blk(*self),
    {
        self.start_lo as u64 + (self.start_hi as u64) * 0x1_0000_0000
    }

    /// Whether this extent covers the logical block `blk_id`.
    pub fn contains(&self, blk_id: u64) -> (r: bool)
        ensures
            r == spec_covers(*self, blk_id),
    {
        let eff = self.len.length() as u64;
        let first = self.block as u64;
        first <= blk_id && blk_id - first < eff
    }
}

/// The extent encoded at byte `off` of `s`.
pub open spec fn spec_extent_at(s: Seq<u8>, off: int) -> Extent {
    Extent {
        block: le32_at(s, off),
        len: Ext4ExtentLength(le16_at(s, off + 4)),
        start_hi: le16_at(s, off + 6),
        start_lo: le32_at(s, off + 8),
    }
}

/// An interior record of the extent tree: the subtree rooted at the 48-bit
/// physical block `leaf_lo | leaf_hi << 32` covers file blocks from `block`
/// onward.
#[derive(Clone, Copy, Debug, PartialEq, Eq, Structural)]
pub struct ExtentIdx {
    /// This index node covers file blocks from `block` onward.
    pub block: u32,
    /// Low 32 bits of the child node's physical block number.
    pub leaf_lo: u32,
    /// High 16 bits of the child node's physical block number.
    pub leaf_hi: u16,
}

/// The physical block number of an index entry's child node.
pub open spec fn spec_leaf_blk(x: ExtentIdx) -> int {
    x.leaf_lo as int + 0x1_0000_0000 * (x.leaf_hi as int)
}

impl ExtentIdx {
    /// The physical block number of the child node.
    pub fn leaf(&self) -> (r: u64)
        ensures
            r as int == spec_leaf_blk(*self),
    {
        self.leaf_lo as u64 + (self.leaf_hi as u64) * 0x1_0000_0000
    }
}

/// The index entry encoded at byte `off` of `s`.
pub open spec fn spec_idx_at(s: Seq<u8>, off: int) -> ExtentIdx {
    ExtentIdx {
        block: le32_at(s, off),
        leaf_lo: le32_at(s, off + 4),
        leaf_hi: le16_at(s, off + 8),
    }
}

/// Raw bytes of one extent-block entry, to be consumed as an [`Extent`] or an
/// [`ExtentIdx`] depending on the node's depth.
pub struct ExtentBlkRawEntry(pub Vec<u8>);

impl ExtentBlkRawEntry {
    /// Consumes this raw entry into an [`Extent`].
    pub fn as_extent(self) -> (r: Extent)
        requires
            self.0@.len() == EXTENT_ENTRY_SIZE,
        ensures
            r == spec_extent_at(self.0@, 0),
    {
        Extent {
            block: read_le32(&self.0, 0),
            len: Ext4ExtentLength(read_le16(&self.0, 4)),
            start_hi: read_le16(&self.0, 6),
            start_lo: read_le32(&self.0, 8),
        }
    }

    /// Consumes this raw entry into an [`ExtentIdx`].
    pub fn as_extent_idx(self) -> (r: ExtentIdx)
        requires
            self.0@.len() == EXTENT_ENTRY_SIZE,
        ensures
            r == spec_idx_at(self.0@, 0),
    {
        ExtentIdx {
            block: read_le32(&self.0, 0),
            leaf_lo: read_le32(&self.0, 4),
            leaf_hi: read_le16(&self.0, 8),
        }
    }
}

/// One node of the extent tree as raw bytes: the 60 inline bytes of the inode,
/// or a full disk block.
pub struct ExtentBlock(pub Vec<u8>);

/// The checksummed region of an extent block: the filesystem UUID, the inode
/// number, the inode generation, and the block body without its 4-byte tail.
pub open spec fn spec_chksum_domain(uuid: Seq<u8>, ino: u32, gen: u32, body: Seq<u8>) -> Seq<u8> {
    uuid + u32_le_bytes(ino) + u32_le_bytes(gen) + body
}

/// Whether the 4-byte tail of `block` equals the CRC32C of its checksummed
/// region.
pub open spec fn spec_chksum_ok(block: Seq<u8>, uuid: Seq<u8>, ino: u32, gen: u32) -> bool {
    le32_at(block, block.len() - 4) == crc32c_of(
        spec_chksum_domain(uuid, ino, gen, block.subrange(0, block.len() - 4)),
    )
}

impl ExtentBlock {
    /// Returns the [`ExtentHeader`] that opens this node.
    pub fn get_header(&self) -> (r: ExtentHeader)
        requires
            self.0@.len() >= EXTENT_HEADER_SIZE,
        ensures
            r == spec_header_at(self.0@, 0),
    {
        ExtentHeader {
            magic: read_le16(&self.0, 0),
            entries: read_le16(&self.0, 2),
            max: read_le16(&self.0, 4),
            depth: Ext4ExtentHeaderDepth(read_le16(&self.0, 6)),
            generation: read_le32(&self.0, 8),
        }
    }

    /// Returns the raw bytes of entry `entry`, or `None` when the header does
    /// not declare it or the node is too short to hold it.
    pub fn get_entry_bytes(&self, entry: u16) -> (r: Option<ExtentBlkRawEntry>)
        requires
            self.0@.len() >= EXTENT_HEADER_SIZE,
        ensures
            match r {
                Some(raw) => entry < spec_header_at(self.0@, 0).entries && EXTENT_HEADER_SIZE + (
                entry as int + 1) * EXTENT_ENTRY_SIZE <= self.0@.len() && raw.0@
                    == self.0@.subrange(
                    EXTENT_HEADER_SIZE + entry as int * EXTENT_ENTRY_SIZE,
                    EXTENT_HEADER_SIZE + (entry as int + 1) * EXTENT_ENTRY_SIZE,
                ),
                None => entry >= spec_header_at(self.0@, 0).entries || EXTENT_HEADER_SIZE + (
                entry as int + 1) * EXTENT_ENTRY_SIZE > self.0@.len(),
            },
    {
        let header = self.get_header();
        if entry >= header.entries {
            return None;
        }
        let n = self.0.len();
        let start = EXTENT_HEADER_SIZE + entry as usize * EXTENT_ENTRY_SIZE;
        if n < EXTENT_ENTRY_SIZE || start > n - EXTENT_ENTRY_SIZE {
            return None;
        }
        let mut raw: Vec<u8> = Vec::new();
        let mut i: usize = 0;
        while i < EXTENT_ENTRY_SIZE
            invariant
                i <= EXTENT_ENTRY_SIZE,
                start + EXTENT_ENTRY_SIZE <= self.0@.len(),
                self.0@.len() <= usize::MAX,
                raw@ == self.0@.subrange(start as int, start + i),
            decreases EXTENT_ENTRY_SIZE - i,
        {
            raw.push(self.0[start + i]);
            i = i + 1;
            assert(raw@ =~= self.0@.subrange(start as int, start + i));
        }
        Some(ExtentBlkRawEntry(raw))
    }

    /// Compares the CRC32C tail of this block with the checksum of its
    /// region: the filesystem UUID, then the inode number and generation
    /// little-endian, then the body.
    pub fn validate_chksum(&self, fs_uuid: &Vec<u8>, inode_id: u32, inode_gen: u32) -> (r: bool)
        requires
            self.0@.len() >= 4,
            fs_uuid@.len() == 16,
        ensures
            r == spec_chksum_ok(self.0@, fs_uuid@, inode_id, inode_gen),
    {
        let n = self.0.len();
        let mut chksum_bytes: Vec<u8> = Vec::new();
        let mut i: usize = 0;
        while i < 16
            invariant
                i <= 16,
                fs_uuid@.len() == 16,
                chksum_bytes@ == fs_uuid@.subrange(0, i as int),
            decreases 16 - i,
        {
            chksum_bytes.push(fs_uuid[i]);
            i = i + 1;
            assert(chksum_bytes@ =~= fs_uuid@.subrange(0, i as int));
        }
        assert(chksum_bytes@ =~= fs_uuid@);
        push_le32(&mut chksum_bytes, inode_id);
        push_le32(&mut chksum_bytes, inode_gen);
        let ghost prefix = chksum_bytes@;
        let mut j: usize = 0;
        while j < n - 4
            invariant
                j <= n - 4,
                n == self.0@.len(),
                n >= 4,
                chksum_bytes@ == prefix + self.0@.subrange(0, j as int),
            decreases n - 4 - j,
        {
            chksum_bytes.push(self.0[j]);
            j = j + 1;
            assert(chksum_bytes@ =~= prefix + self.0@.subrange(0, j as int));
        }
        let computed = crc32c_calc(&chksum_bytes);
        let stored = read_le32(&self.0, n - 4);
        assert(chksum_bytes@ =~= spec_chksum_domain(
            fs_uuid@,
            inode_id,
            inode_gen,
            self.0@.subrange(0, n - 4),
        ));
        computed == stored
    }
}

/// Everything the traversal's mathematical model depends on: the device
/// contents and geometry, where the partition starts, the block size, and the
/// three checksum-seed values of the owning filesystem and inode.
pub struct TreeEnv {
    pub sectors: Map<int, Seq<u8>>,
    pub sector_size: nat,
    pub part_start: int,
    pub block_size: nat,
    pub uuid: Seq<u8>,
    pub ino: u32,
    pub gen: u32,
}

impl TreeEnv {
    /// The bytes of filesystem block `blk` under this environment.
    pub open spec fn fs_block(self, blk: int) -> Seq<u8> {
        spec_fs_block(self.sectors, self.sector_size, self.part_start, self.block_size, blk)
    }

    /// Whether the device model holds all of filesystem block `blk`.
    pub open spec fn fs_block_present(self, blk: int) -> bool {
        fs_block_defined(self.sectors, self.sector_size, self.part_start, self.block_size, blk)
    }
}

/// The traversal environment that a device, a volume and an inode's checksum
/// seed determine.
pub open spec fn tree_env<D: BlockDevice>(dev: &D, vol: Ext4Volume, ino: u32, gen: u32) -> TreeEnv {
    TreeEnv {
        sectors: dev.sectors(),
        sector_size: dev.sector_size_spec(),
        part_start: vol.start_lba as int,
        block_size: vol.superblock.block_size as nat,
        uuid: vol.superblock.uuid@,
        ino: ino,
        gen: gen,
    }
}

/// The leaf extents declared by a leaf node: `n` records of 12 bytes each,
/// directly after the 12-byte header.
pub open spec fn spec_leaf_extents(node: Seq<u8>, n: int) -> Seq<Extent> {
    Seq::new(n as nat, |i: int| spec_extent_at(node, 12 + 12 * i))
}

/// What a depth-first traversal of the node with bytes `node` collects: the
/// leaf extents in traversal order together with the number of interior
/// blocks whose checksum tail did not match, or `None` when any reachable
/// header is invalid, an entry does not fit its node, a child block is not on
/// the device, or a child's depth does not step down by one.
///
/// An inline node (the tree root, stored in the inode) carries no checksum
/// tail of its own; every other node reserves its last 4 bytes for one.
pub open spec fn spec_collect_node(env: TreeEnv, node: Seq<u8>, inline: bool) -> Option<
    (Seq<Extent>, nat),
>
    decreases spec_header_at(node, 0).depth.0 as int, 1int, 0int,
{
    let h = spec_header_at(node, 0);
    let limit = if inline {
        node.len() as int
    } else {
        node.len() - 4
    };
    if node.len() < 12 || !spec_header_ok(h) || 12 + 12 * (h.entries as int) > limit {
        None
    } else if h.depth.0 == 0 {
        Some((spec_leaf_extents(node, h.entries as int), 0))
    } else {
        spec_collect_children(env, node, 0)
    }
}

/// What traversing children `i, i + 1, ...` of the interior node `node`
/// collects; a checksum mismatch on a child block counts one warning and the
/// traversal goes on.
pub open spec fn spec_collect_children(env: TreeEnv, node: Seq<u8>, i: int) -> Option<
    (Seq<Extent>, nat),
>
    decreases spec_header_at(node, 0).depth.0 as int, 0int, spec_header_at(node, 0).entries - i,
{
    let h = spec_header_at(node, 0);
    if i < 0 || i >= h.entries {
        Some((Seq::empty(), 0))
    } else {
        let idx = spec_idx_at(node, 12 + 12 * i);
        let cb = env.fs_block(spec_leaf_blk(idx));
        let ch = spec_header_at(cb, 0);
        if !env.fs_block_present(spec_leaf_blk(idx)) {
            None
        } else if ch.depth.0 as int + 1 != h.depth.0 as int {
            None
        } else {
            let w0: nat = if spec_chksum_ok(cb, env.uuid, env.ino, env.gen) {
                0
            } else {
                1
            };
            match spec_collect_node(env, cb, false) {
                None => None,
                Some((s1, w1)) => match spec_collect_children(env, node, i + 1) {
                    None => None,
                    Some((s2, w2)) => Some((s1 + s2, (w0 + w1 + w2) as nat)),
                },
            }
        }
    }
}

/// Whether every interior block a traversal of `node` checks carries a tail
/// that matches its checksum domain. Nodes the traversal rejects are not
/// checked, so they constrain nothing here.
pub open spec fn spec_chksums_clean(env: TreeEnv, node: Seq<u8>, inline: bool) -> bool
    decreases spec_header_at(node, 0).depth.0 as int, 1int, 0int,
{
    let h = spec_header_at(node, 0);
    let limit = if inline {
        node.len() as int
    } else {
        node.len() - 4
    };
    if node.len() < 12 || !spec_header_ok(h) || 12 + 12 * (h.entries as int) > limit {
        true
    } else if h.depth.0 == 0 {
        true
    } else {
        spec_chksums_clean_children(env, node, 0)
    }
}

/// [`spec_chksums_clean`], over children `i, i + 1, ...` of an interior node.
pub open spec fn spec_chksums_clean_children(env: TreeEnv, node: Seq<u8>, i: int) -> bool
    decreases spec_header_at(node, 0).depth.0 as int, 0int, spec_header_at(node, 0).entries - i,
{
    let h = spec_header_at(node, 0);
    if i < 0 || i >= h.entries {
        true
    } else {
        let idx = spec_idx_at(node, 12 + 12 * i);
        let cb = env.fs_block(spec_leaf_blk(idx));
        let ch = spec_header_at(cb, 0);
        if !env.fs_block_present(spec_leaf_blk(idx)) {
            true
        } else if ch.depth.0 as int + 1 != h.depth.0 as int {
            true
        } else {
            spec_chksum_ok(cb, env.uuid, env.ino, env.gen) && spec_chksums_clean(env, cb, false)
                && spec_chksums_clean_children(env, node, i + 1)
        }
    }
}

/// Law: the checksum domain is respected — when every interior block the
/// traversal checks has a tail that matches the CRC32C of its domain, the
/// collection reports zero checksum warnings.
pub proof fn lemma_clean_tree_has_no_warnings(env: TreeEnv, node: Seq<u8>, inline: bool)
    requires
        spec_collect_node(env, node, inline) is Some,
        spec_chksums_clean(env, node, inline),
    ensures
        spec_collect_node(env, node, inline)->Some_0.1 == 0,
    decreases spec_header_at(node, 0).depth.0 as int, 1int, 0int,
{
    let h = spec_header_at(node, 0);
    let limit = if inline {
        node.len() as int
    } else {
        node.len() - 4
    };
    if node.len() < 12 || !spec_header_ok(h) || 12 + 12 * (h.entries as int) > limit {
    } else if h.depth.0 == 0 {
    } else {
        lemma_clean_children_have_no_warnings(env, node, 0);
    }
}

/// [`lemma_clean_tree_has_no_warnings`], over children `i, i + 1, ...`.
proof fn lemma_clean_children_have_no_warnings(env: TreeEnv, node: Seq<u8>, i: int)
    requires
        spec_collect_children(env, node, i) is Some,
        spec_chksums_clean_children(env, node, i),
    ensures
        spec_collect_children(env, node, i)->Some_0.1 == 0,
    decreases spec_header_at(node, 0).depth.0 as int, 0int, spec_header_at(node, 0).entries - i,
{
    let h = spec_header_at(node, 0);
    if i < 0 || i >= h.entries {
    } else {
        let idx = spec_idx_at(node, 12 + 12 * i);
        let cb = env.fs_block(spec_leaf_blk(idx));
        let ch = spec_header_at(cb, 0);
        if !env.fs_block_present(spec_leaf_blk(idx)) {
        } else if ch.depth.0 as int + 1 != h.depth.0 as int {
        } else {
            lemma_clean_tree_has_no_warnings(env, cb, false);
            lemma_clean_children_have_no_warnings(env, node, i + 1);
        }
    }
}

/// A 12-byte record read out of a copy of its bytes decodes the same as one
/// read in place.
proof fn lemma_extent_at_offset(s: Seq<u8>, off: int)
    requires
        0 <= off,
        off + 12 <= s.len(),
    ensures
        spec_extent_at(s.subrange(off, off + 12), 0) == spec_extent_at(s, off),
        spec_idx_at(s.subrange(off, off + 12), 0) == spec_idx_at(s, off),
{
    let sub = s.subrange(off, off + 12);
    assert forall|k: int| 0 <= k < 12 implies sub[k] == s[off + k] by {}
}

/// Walks one node of the extent tree: appends the leaf extents it reaches to
/// `extents` in traversal order, counts checksum mismatches of interior
/// blocks into `warnings` (saturating), and reports corruption or a device
/// failure.
#[verifier::rlimit(60)]
fn traverse_extent_layer<D: BlockDevice>(
    dev: &D,
    vol: &Ext4Volume,
    ext_data: &ExtentBlock,
    is_inline: bool,
    extents: &mut Vec<Extent>,
    inode_number: u32,
    inode_gen: u32,
    warnings: &mut u64,
) -> (r: Result<(), Ext4Error>)
    requires
        vol.wf(),
        dev.sector_size_spec() > 0,
        vol.superblock.block_size as nat % dev.sector_size_spec() == 0,
        dev.sector_size_spec() <= vol.superblock.block_size,
        is_inline ==> ext_data.0@.len() == 60,
        !is_inline ==> ext_data.0@.len() == vol.superblock.block_size,
    ensures
        r is Ok ==> (spec_collect_node(
            tree_env(dev, *vol, inode_number, inode_gen),
            ext_data.0@,
            is_inline,
        ) matches Some((s, w)) && final(extents)@ == old(extents)@ + s && *final(warnings)
            == sat_u64(*old(warnings) as int + w)),
        r == Err::<(), Ext4Error>(Ext4Error::CorruptMetadata) ==> spec_collect_node(
            tree_env(dev, *vol, inode_number, inode_gen),
            ext_data.0@,
            is_inline,
        ) is None,
        r matches Err(e) ==> (e matches Ext4Error::Io(_) || e == Ext4Error::CorruptMetadata),
        // A leaf node is decoded from bytes already in hand, so its outcome
        // is deterministic: no device failure can be reported.
        spec_header_at(ext_data.0@, 0).depth.0 == 0 && spec_collect_node(
            tree_env(dev, *vol, inode_number, inode_gen),
            ext_data.0@,
            is_inline,
        ) is Some ==> r is Ok,
        spec_header_at(ext_data.0@, 0).depth.0 == 0 && spec_collect_node(
            tree_env(dev, *vol, inode_number, inode_gen),
            ext_data.0@,
            is_inline,
        ) is None ==> r == Err::<(), Ext4Error>(Ext4Error::CorruptMetadata),
    decreases spec_header_at(ext_data.0@, 0).depth.0,
{
    let ghost env = tree_env(dev, *vol, inode_number, inode_gen);
    let ghost node = ext_data.0@;
    let header = ext_data.get_header();
    let n = ext_data.0.len();
    let limit: usize = if is_inline {
        n
    } else {
        n - 4
    };
    if header.magic != EXT4_EXTENT_MAGIC || header.depth.0 > EXT4_EXTENT_MAX_DEPTH
        || header.entries > header.max {
        return Err(Ext4Error::CorruptMetadata);
    }
    let entries = header.entries as usize;
    if 12 + entries * 12 > limit {
        return Err(Ext4Error::CorruptMetadata);
    }
    let ghost pre = extents@;
    let ghost pw = *warnings;

    if header.depth.0 == 0 {
        let mut entry: usize = 0;
        while entry < entries
            invariant
                entry <= entries,
                entries == spec_header_at(node, 0).entries,
                node == ext_data.0@,
                node.len() >= 12,
                12 + 12 * (entries as int) <= node.len(),
                extents@ == pre + spec_leaf_extents(node, entry as int),
            decreases entries - entry,
        {
            let raw = match ext_data.get_entry_bytes(entry as u16) {
                Some(raw) => raw,
                None => {
                    proof {
                        assert(12 + ((entry as int) + 1) * 12 <= 12 + 12 * (entries as int));
                        assert(false);
                    }
                    return Err(Ext4Error::CorruptMetadata);
                },
            };
            let ext = raw.as_extent();
            proof {
                let off = 12 + 12 * (entry as int);
                assert(raw.0@ == node.subrange(off, off + 12));
                lemma_extent_at_offset(node, off);
                assert(ext == spec_extent_at(node, off));
            }
            extents.push(ext);
            entry = entry + 1;
            proof {
                assert(extents@ =~= pre + spec_leaf_extents(node, entry as int));
            }
        }
        proof {
            assert(spec_collect_node(env, node, is_inline) == Some(
                (spec_leaf_extents(node, entries as int), 0nat),
            ));
            assert(*warnings == sat_u64(pw as int + 0));
        }
        return Ok(());
    }

    // Interior node: read and recurse into each child block.
    let mut entry: usize = 0;
    let ghost mut w_acc: nat = 0nat;
    while entry < entries
        invariant
            entry <= entries,
            header == spec_header_at(node, 0),
            entries == header.entries as usize,
            node == ext_data.0@,
            vol.wf(),
            dev.sector_size_spec() > 0,
            vol.superblock.block_size as nat % dev.sector_size_spec() == 0,
            dev.sector_size_spec() <= vol.superblock.block_size,
            is_inline ==> node.len() == 60,
            !is_inline ==> node.len() == vol.superblock.block_size,
            node.len() >= 12,
            12 + 12 * (entries as int) <= (if is_inline { node.len() as int } else { node.len() - 4 }),
            spec_header_ok(spec_header_at(node, 0)),
            spec_header_at(node, 0).depth.0 > 0,
            env == tree_env(dev, *vol, inode_number, inode_gen),
            extents@.len() >= pre.len(),
            extents@.subrange(0, pre.len() as int) == pre,
            *warnings == sat_u64(pw as int + w_acc),
            match spec_collect_children(env, node, entry as int) {
                Some((s2, w2)) => spec_collect_children(env, node, 0) matches Some((s0, w0))
                    && s0 == extents@.skip(pre.len() as int) + s2 && w0 == w_acc + w2,
                None => spec_collect_children(env, node, 0) is None,
            },
        decreases entries - entry,
    {
        let raw = match ext_data.get_entry_bytes(entry as u16) {
            Some(raw) => raw,
            None => {
                proof {
                    assert(12 + ((entry as int) + 1) * 12 <= 12 + 12 * (entries as int));
                    assert(false);
                }
                return Err(Ext4Error::CorruptMetadata);
            },
        };
        let idx = raw.as_extent_idx();
        proof {
            let off = 12 + 12 * (entry as int);
            assert(raw.0@ == node.subrange(off, off + 12));
            lemma_extent_at_offset(node, off);
            assert(idx == spec_idx_at(node, off));
        }
        let child_blk = idx.leaf();
        let data = match read_fs_block(dev, vol.start_lba, vol.superblock.block_size, child_blk) {
            Ok(d) => d,
            Err(e) => {
                return Err(Ext4Error::Io(e));
            },
        };
        let extent_blk = ExtentBlock(data);
        proof {
            assert(extent_blk.0@ == env.fs_block(spec_leaf_blk(idx)));
            assert(env.fs_block_present(spec_leaf_blk(idx)));
        }
        let child_header = extent_blk.get_header();
        if !(child_header.depth.0 < header.depth.0 && header.depth.0 - child_header.depth.0 == 1) {
            proof {
                assert(spec_collect_children(env, node, entry as int) is None);
            }
            return Err(Ext4Error::CorruptMetadata);
        }
        let chksum_good = extent_blk.validate_chksum(
            &vol.superblock.uuid,
            inode_number,
            inode_gen,
        );
        let ghost w_this: nat = if chksum_good {
            0nat
        } else {
            1nat
        };
        if !chksum_good {
            // A checksum mismatch is soft: count it and keep walking.
            if *warnings < u64::MAX {
                *warnings = *warnings + 1;
            }
        }
        let ghost mid = extents@;
        let ghost w_before = *warnings;
        match traverse_extent_layer(
            dev,
            vol,
            &extent_blk,
            false,
            extents,
            inode_number,
            inode_gen,
            warnings,
        ) {
            Ok(()) => {},
            Err(e) => {
                proof {
                    if e == Ext4Error::CorruptMetadata {
                        assert(spec_collect_node(env, extent_blk.0@, false) is None);
                        assert(spec_collect_children(env, node, entry as int) is None);
                    }
                }
                return Err(e);
            },
        }
        proof {
            let cb = extent_blk.0@;
            let rec = spec_collect_node(env, cb, false);
            assert(rec is Some);
            let (s1, w1) = rec->Some_0;
            assert(extents@ == mid + s1);
            assert(*warnings == sat_u64(w_before as int + w1));
            // Saturating adds compose: bring *warnings back to one saturation
            // over the exact sum.
            assert(w_before == sat_u64(pw as int + w_acc + w_this));
            assert(*warnings == sat_u64(pw as int + (w_acc + w_this + w1))) by {
                if pw as int + w_acc + w_this > u64::MAX {
                    assert(w_before == u64::MAX);
                } else {
                }
            };
            let old_i = entry as int;
            // Unfold the children spec at this entry and re-associate.
            assert(spec_collect_children(env, node, old_i) == (match spec_collect_children(
                env,
                node,
                old_i + 1,
            ) {
                None => None::<(Seq<Extent>, nat)>,
                Some((s2, w2)) => Some((s1 + s2, (w_this + w1 + w2) as nat)),
            }));
            match spec_collect_children(env, node, old_i + 1) {
                Some((s2, w2)) => {
                    assert(spec_collect_children(env, node, old_i) matches Some((sa, wa)) && sa
                        == s1 + s2 && wa == w_this + w1 + w2);
                    assert(spec_collect_children(env, node, 0) matches Some((s0, w0)) && s0
                        == mid.skip(pre.len() as int) + (s1 + s2) && w0 == w_acc + (w_this + w1
                        + w2));
                    assert(extents@.skip(pre.len() as int) =~= mid.skip(pre.len() as int) + s1);
                    w_acc = w_acc + w_this + w1;
                    assert(spec_collect_children(env, node, 0) matches Some((s0, w0)) && s0
                        == extents@.skip(pre.len() as int) + s2 && w0 == w_acc + w2);
                },
                None => {
                    assert(spec_collect_children(env, node, old_i) is None);
                    assert(spec_collect_children(env, node, 0) is None);
                    w_acc = w_acc + w_this + w1;
                },
            }
            assert(extents@.subrange(0, pre.len() as int) =~= pre);
        }
        entry = entry + 1;
    }
    proof {
        assert(spec_collect_children(env, node, entries as int) == Some(
            (Seq::<Extent>::empty(), 0nat),
        ));
        assert(spec_collect_children(env, node, 0) matches Some((s0, w0)) && s0 == extents@.skip(
            pre.len() as int,
        ) + Seq::<Extent>::empty() && w0 == w_acc + 0);
        assert(extents@.skip(pre.len() as int) + Seq::<Extent>::empty() =~= extents@.skip(
            pre.len() as int,
        ));
        assert(spec_collect_node(env, node, is_inline) == spec_collect_children(env, node, 0));
        assert(extents@ =~= pre + extents@.skip(pre.len() as int));
    }
    Ok(())
}

/// Insertion of `e` into `s` from the right: every trailing element whose
/// first logical block is above `e`'s moves one place up, and `e` lands before
/// them.
pub open spec fn spec_insert_sorted(s: Seq<Extent>, e: Extent) -> Seq<Extent>
    decreases s.len(),
{
    if s.len() == 0 {
        seq![e]
    } else if s.last().block <= e.block {
        s.push(e)
    } else {
        spec_insert_sorted(s.drop_last(), e).push(s.last())
    }
}

/// Insertion sort of a sequence of extents by first logical block. Insertion
/// from the right keeps equal keys in input order, so the result is a single,
/// fully determined sequence.
pub open spec fn spec_sort_extents(s: Seq<Extent>) -> Seq<Extent>
    decreases s.len(),
{
    if s.len() == 0 {
        Seq::empty()
    } else {
        spec_insert_sorted(spec_sort_extents(s.drop_last()), s.last())
    }
}

/// When everything from position `k` on has a block above `e.block` and the
/// element before `k` (if any) does not, inserting `e` splices it in at `k`.
proof fn lemma_insert_sorted_splice(s: Seq<Extent>, e: Extent, k: int)
    requires
        0 <= k <= s.len(),
        forall|j: int| k <= j < s.len() ==> (#[trigger] s[j]).block > e.block,
        k > 0 ==> s[k - 1].block <= e.block,
    ensures
        spec_insert_sorted(s, e) == s.insert(k, e),
    decreases s.len(),
{
    if s.len() == k {
        if k == 0 {
            assert(spec_insert_sorted(s, e) =~= s.insert(k, e));
        } else {
            assert(s.last().block <= e.block);
            assert(spec_insert_sorted(s, e) =~= s.insert(k, e));
        }
    } else {
        assert(s[s.len() - 1].block > e.block);
        let dl = s.drop_last();
        assert(forall|j: int| k <= j < dl.len() ==> (#[trigger] dl[j]).block > e.block);
        lemma_insert_sorted_splice(dl, e, k);
        assert(spec_insert_sorted(s, e) =~= s.insert(k, e));
    }
}

/// Inserts `e` into `v`, keeping `v` sorted when it was.
fn insert_sorted(v: &mut Vec<Extent>, e: Extent)
    ensures
        final(v)@ == spec_insert_sorted(old(v)@, e),
{
    let mut k = v.len();
    while k > 0 && v[k - 1].block > e.block
        invariant
            k <= v@.len(),
            v@ == old(v)@,
            forall|j: int| k <= j < v@.len() ==> (#[trigger] v@[j]).block > e.block,
        decreases k,
    {
        k = k - 1;
    }
    proof {
        lemma_insert_sorted_splice(v@, e, k as int);
    }
    v.insert(k, e);
}

/// Sorts the collected extents by first logical block; order of collection is
/// forgotten, order of lookup is established.
fn sort_extents(v: &mut Vec<Extent>)
    ensures
        final(v)@ == spec_sort_extents(old(v)@),
{
    let n = v.len();
    let mut out: Vec<Extent> = Vec::new();
    let mut i: usize = 0;
    while i < n
        invariant
            i <= n,
            n == v@.len(),
            v@ == old(v)@,
            out@ == spec_sort_extents(v@.subrange(0, i as int)),
        decreases n - i,
    {
        let e = v[i];
        insert_sorted(&mut out, e);
        i = i + 1;
        proof {
            let cur = v@.subrange(0, i as int);
            assert(cur.drop_last() =~= v@.subrange(0, i - 1));
            assert(cur.last() == v@[i - 1]);
        }
    }
    assert(v@.subrange(0, n as int) =~= v@);
    *v = out;
}

/// Structural validity of a sorted extent list: every extent covers at least
/// one block, stays below the 2^32 logical-block ceiling, and ends at or
/// before the next one starts.
pub open spec fn spec_extents_valid(s: Seq<Extent>) -> bool {
    &&& forall|i: int|
        0 <= i < s.len() ==> 1 <= (#[trigger] s[i]).len.spec_effective() && s[i].block as int
            + s[i].len.spec_effective() <= 0x1_0000_0000
    &&& forall|i: int|
        0 < i < s.len() ==> s[i - 1].block as int + s[i - 1].len.spec_effective() <= (
        #[trigger] s[i]).block as int
}

/// Checks [`spec_extents_valid`] over a vector.
fn check_extents_valid(v: &Vec<Extent>) -> (r: bool)
    ensures
        r == spec_extents_valid(v@),
{
    let n = v.len();
    let mut i: usize = 0;
    while i < n
        invariant
            i <= n,
            n == v@.len(),
            forall|j: int|
                0 <= j < i ==> 1 <= (#[trigger] v@[j]).len.spec_effective() && v@[j].block as int
                    + v@[j].len.spec_effective() <= 0x1_0000_0000,
            forall|j: int|
                0 < j < i ==> v@[j - 1].block as int + v@[j - 1].len.spec_effective() <= (
                #[trigger] v@[j]).block as int,
        decreases n - i,
    {
        let e = v[i];
        let eff = e.len.length();
        if eff == 0 {
            return false;
        }
        if e.block as u64 + eff as u64 > 0x1_0000_0000u64 {
            return false;
        }
        if i > 0 {
            let p = v[i - 1];
            if p.block as u64 + p.len.length() as u64 > e.block as u64 {
                return false;
            }
        }
        i = i + 1;
    }
    true
}

/// How a lookup answers for the extent that covers the block: a physical
/// block for an initialized extent, the zero sentinel for an uninitialized
/// one.
pub open spec fn spec_lookup_result(e: Extent, b: u64) -> BlockMapping {
    if e.len.0 <= 32768 {
        BlockMapping::Mapped((spec_start_blk(e) + (b - e.block)) as u64)
    } else {
        BlockMapping::Zero
    }
}

/// What a lookup hands back for a covered logical block.
///
/// `Zero` is the sentinel for a block inside an uninitialized extent: the
/// caller fills its buffer with zeros and issues no disk read.
#[derive(Clone, Copy, Debug, PartialEq, Eq, Structural)]
pub enum BlockMapping {
    /// The physical disk block that backs the logical block.
    Mapped(u64),
    /// The block is allocated but uninitialized; it reads as zeros.
    Zero,
}

/// The in-memory extent tree of one inode: its leaf extents sorted by first
/// logical block, the inode's number and generation (the checksum seed, kept
/// for recomputation), and how many interior blocks failed their checksum
/// while loading.
pub struct ExtentTree {
    /// The leaf extents, sorted by `block` and non-overlapping.
    pub extents: Vec<Extent>,
    /// The number of the owning inode.
    pub inode_number: u32,
    /// The generation of the owning inode.
    pub inode_generation: u32,
    /// How many interior blocks failed checksum validation during the load;
    /// such blocks are still traversed (best-effort reads), so a tree with
    /// warnings is usable but suspect.
    pub checksum_warnings: u64,
}

impl ExtentTree {
    /// The invariant every loaded tree satisfies: extents are sorted by first
    /// logical block, pairwise non-overlapping, each at least one block long
    /// and below the 2^32 logical ceiling.
    pub open spec fn wf(&self) -> bool {
        &&& forall|i: int|
            0 <= i < self.extents@.len() ==> 1 <= (#[trigger] self.extents@[i]).len.spec_effective()
                && self.extents@[i].block as int + self.extents@[i].len.spec_effective()
                <= 0x1_0000_0000
        &&& forall|i: int, j: int|
            0 <= i < j < self.extents@.len() ==> (#[trigger] self.extents@[i]).block as int
                + self.extents@[i].len.spec_effective() <= (#[trigger] self.extents@[j]).block as int
    }
}

/// Adjacent non-overlap extends to every pair once each extent covers at
/// least one block.
proof fn lemma_adjacent_implies_pairwise(s: Seq<Extent>)
    requires
        spec_extents_valid(s),
    ensures
        forall|i: int, j: int|
            0 <= i < j < s.len() ==> (#[trigger] s[i]).block as int + s[i].len.spec_effective() <= (
            #[trigger] s[j]).block as int,
{
    assert forall|i: int, j: int| 0 <= i < j < s.len() implies (#[trigger] s[i]).block as int
        + s[i].len.spec_effective() <= (#[trigger] s[j]).block as int by {
        lemma_reach(s, i, j);
    }
}

/// The pairwise bound between two positions, by induction on the distance.
proof fn lemma_reach(s: Seq<Extent>, i: int, j: int)
    requires
        spec_extents_valid(s),
        0 <= i < j < s.len(),
    ensures
        s[i].block as int + s[i].len.spec_effective() <= s[j].block as int,
    decreases j - i,
{
    if j == i + 1 {
    } else {
        lemma_reach(s, i, j - 1);
    }
}

/// Whether a tree load applies at all: the filesystem must declare the
/// extents feature and the inode must use an extent tree. When either is
/// missing the load answers "not applicable" and the caller falls back to
/// classic indirect blocks.
pub open spec fn spec_tree_applicable(vol: Ext4Volume, inode: Inode) -> bool {
    vol.superblock.feature_incompat & crate::superblock::FEATURE_INCOMPAT_EXTENTS != 0
        && inode.uses_extents
}

/// Whether the device geometry lets the reader fetch whole filesystem blocks:
/// a positive sector size that divides the block size.
pub open spec fn spec_geometry_ok(ssz: nat, bs: u32) -> bool {
    0 < ssz && bs as nat % ssz == 0
}

impl ExtentTree {
    /// Loads the entire extent tree of `inode` from `dev`, depth first from
    /// the inline root node, then sorts the leaf extents by first logical
    /// block and refuses a list whose extents are empty, overflow the logical
    /// ceiling, or overlap.
    ///
    /// `Ok(None)` is the "not applicable" answer: the filesystem or the inode
    /// does not use extents, and no error is reported. A checksum mismatch on
    /// an interior block is counted on the returned tree, not reported as an
    /// error.
    #[verifier::rlimit(100)]
    pub fn load_extent_tree<D: BlockDevice>(dev: &D, vol: &Ext4Volume, inode: &Inode) -> (r: Result<
        Option<ExtentTree>,
        Ext4Error,
    >)
        requires
            vol.wf(),
            inode.wf(),
        ensures
            !spec_tree_applicable(*vol, *inode) ==> r == Ok::<Option<ExtentTree>, Ext4Error>(None),
            spec_tree_applicable(*vol, *inode) && !spec_geometry_ok(
                dev.sector_size_spec(),
                vol.superblock.block_size,
            ) ==> r == Err::<Option<ExtentTree>, Ext4Error>(Ext4Error::UnsupportedFeature),
            r matches Ok(Some(t)) ==> ({
                let c = spec_collect_node(
                    tree_env(dev, *vol, inode.number, inode.generation),
                    inode.i_block@,
                    true,
                );
                spec_tree_applicable(*vol, *inode) && spec_geometry_ok(
                    dev.sector_size_spec(),
                    vol.superblock.block_size,
                ) && c is Some && t.extents@ == spec_sort_extents(c->Some_0.0)
                    && t.checksum_warnings == sat_u64(c->Some_0.1 as int) && spec_extents_valid(
                    t.extents@,
                ) && t.wf() && t.inode_number == inode.number && t.inode_generation
                    == inode.generation
            }),
            (spec_tree_applicable(*vol, *inode) && spec_geometry_ok(
                dev.sector_size_spec(),
                vol.superblock.block_size,
            ) && spec_collect_node(
                tree_env(dev, *vol, inode.number, inode.generation),
                inode.i_block@,
                true,
            ) is None) ==> (r == Err::<Option<ExtentTree>, Ext4Error>(Ext4Error::CorruptMetadata)
                || r matches Err(Ext4Error::Io(_))),
            ({
                let c = spec_collect_node(
                    tree_env(dev, *vol, inode.number, inode.generation),
                    inode.i_block@,
                    true,
                );
                spec_tree_applicable(*vol, *inode) && spec_geometry_ok(
                    dev.sector_size_spec(),
                    vol.superblock.block_size,
                ) && c is Some && !spec_extents_valid(spec_sort_extents(c->Some_0.0))
            }) ==> (r == Err::<Option<ExtentTree>, Ext4Error>(Ext4Error::CorruptMetadata)
                || r matches Err(Ext4Error::Io(_))),
            ({
                let c = spec_collect_node(
                    tree_env(dev, *vol, inode.number, inode.generation),
                    inode.i_block@,
                    true,
                );
                spec_tree_applicable(*vol, *inode) && spec_geometry_ok(
                    dev.sector_size_spec(),
                    vol.superblock.block_size,
                ) && c is Some && spec_extents_valid(spec_sort_extents(c->Some_0.0))
            }) ==> (r matches Ok(Some(_)) || r matches Err(Ext4Error::Io(_))),
            // A tree whose root is already a leaf is decided by the 60 inline
            // bytes alone: success is owed outright, and the only error left
            // is corruption.
            ({
                let c = spec_collect_node(
                    tree_env(dev, *vol, inode.number, inode.generation),
                    inode.i_block@,
                    true,
                );
                spec_tree_applicable(*vol, *inode) && spec_geometry_ok(
                    dev.sector_size_spec(),
                    vol.superblock.block_size,
                ) && spec_header_at(inode.i_block@, 0).depth.0 == 0 && c is Some
                    && spec_extents_valid(spec_sort_extents(c->Some_0.0))
            }) ==> r matches Ok(Some(_)),
            ({
                let c = spec_collect_node(
                    tree_env(dev, *vol, inode.number, inode.generation),
                    inode.i_block@,
                    true,
                );
                spec_tree_applicable(*vol, *inode) && spec_geometry_ok(
                    dev.sector_size_spec(),
                    vol.superblock.block_size,
                ) && spec_header_at(inode.i_block@, 0).depth.0 == 0 && (c is None || (c is Some
                    && !spec_extents_valid(spec_sort_extents(c->Some_0.0))))
            }) ==> r == Err::<Option<ExtentTree>, Ext4Error>(Ext4Error::CorruptMetadata),
    {
        if !(vol.superblock.has_extents_feature() && inode.uses_extents) {
            return Ok(None);
        }
        let ssz = dev.sector_size();
        let bs = vol.superblock.block_size;
        if ssz == 0 || bs % (ssz as u32) != 0 {
            return Err(Ext4Error::UnsupportedFeature);
        }
        proof {
            if dev.sector_size_spec() > bs as nat {
                vstd::arithmetic::div_mod::lemma_small_mod(
                    bs as nat,
                    dev.sector_size_spec(),
                );
                assert(false);
            }
        }
        // The root node: a private copy of the inode's 60 inline bytes.
        let mut root_bytes: Vec<u8> = Vec::new();
        let mut i: usize = 0;
        while i < 60
            invariant
                i <= 60,
                inode.i_block@.len() == 60,
                root_bytes@ == inode.i_block@.subrange(0, i as int),
            decreases 60 - i,
        {
            root_bytes.push(inode.i_block[i]);
            i = i + 1;
            assert(root_bytes@ =~= inode.i_block@.subrange(0, i as int));
        }
        assert(root_bytes@ =~= inode.i_block@);
        let root = ExtentBlock(root_bytes);
        let mut extents: Vec<Extent> = Vec::new();
        let mut warnings: u64 = 0;
        match traverse_extent_layer(
            dev,
            vol,
            &root,
            true,
            &mut extents,
            inode.number,
            inode.generation,
            &mut warnings,
        ) {
            Ok(()) => {},
            Err(e) => {
                return Err(e);
            },
        }
        proof {
            assert(Seq::<Extent>::empty() + spec_collect_node(
                tree_env(dev, *vol, inode.number, inode.generation),
                inode.i_block@,
                true,
            )->Some_0.0 =~= spec_collect_node(
                tree_env(dev, *vol, inode.number, inode.generation),
                inode.i_block@,
                true,
            )->Some_0.0);
        }
        sort_extents(&mut extents);
        if !check_extents_valid(&extents) {
            return Err(Ext4Error::CorruptMetadata);
        }
        proof {
            lemma_adjacent_implies_pairwise(extents@);
        }
        Ok(
            Some(
                ExtentTree {
                    extents,
                    inode_number: inode.number,
                    inode_generation: inode.generation,
                    checksum_warnings: warnings,
                },
            ),
        )
    }

    /// Two extents of a well-formed tree cannot cover the same logical block.
    proof fn lemma_cover_unique(&self, b: u64, i: int, j: int)
        requires
            self.wf(),
            0 <= i < self.extents@.len(),
            0 <= j < self.extents@.len(),
            spec_covers(self.extents@[i], b),
            spec_covers(self.extents@[j], b),
        ensures
            i == j,
    {
        if i < j {
            assert(self.extents@[i].block as int + self.extents@[i].len.spec_effective()
                <= self.extents@[j].block as int);
        } else if j < i {
            assert(self.extents@[j].block as int + self.extents@[j].len.spec_effective()
                <= self.extents@[i].block as int);
        }
    }

    /// Maps the file-relative block `blk_id` to its place on disk: a physical
    /// block for an initialized extent, the zero sentinel for an
    /// uninitialized one, and `None` when no extent covers it (a sparse hole,
    /// which the caller reads as zeros).
    ///
    /// Binary search over the sorted extent list; O(log n).
    pub fn get_exact_blk_mapping(&self, blk_id: u64) -> (r: Option<BlockMapping>)
        requires
            self.wf(),
        ensures
            (r is Some) == (exists|i: int|
                0 <= i < self.extents@.len() && spec_covers(#[trigger] self.extents@[i], blk_id)),
            forall|i: int|
                0 <= i < self.extents@.len() && spec_covers(#[trigger] self.extents@[i], blk_id)
                    ==> r == Some(spec_lookup_result(self.extents@[i], blk_id)),
    {
        let n = self.extents.len();
        let mut lo: usize = 0;
        let mut hi: usize = n;
        while lo < hi
            invariant
                lo <= hi <= n,
                n == self.extents@.len(),
                self.wf(),
                forall|i: int|
                    0 <= i < lo ==> (#[trigger] self.extents@[i]).block as int
                        + self.extents@[i].len.spec_effective() <= blk_id as int,
                forall|i: int| hi <= i < n ==> (#[trigger] self.extents@[i]).block > blk_id,
            decreases hi - lo,
        {
            let mid = lo + (hi - lo) / 2;
            let e = self.extents[mid];
            if e.contains(blk_id) {
                let mapping = if e.len.is_initialized() {
                    BlockMapping::Mapped(e.start_blk() + (blk_id - e.block as u64))
                } else {
                    BlockMapping::Zero
                };
                proof {
                    assert(spec_covers(self.extents@[mid as int], blk_id));
                    assert forall|i: int|
                        0 <= i < self.extents@.len() && spec_covers(
                            #[trigger] self.extents@[i],
                            blk_id,
                        ) implies Some(mapping) == Some(
                        spec_lookup_result(self.extents@[i], blk_id),
                    ) by {
                        self.lemma_cover_unique(blk_id, i, mid as int);
                    }
                }
                return Some(mapping);
            } else if e.block as u64 > blk_id {
                hi = mid;
            } else {
                lo = mid + 1;
            }
        }
        proof {
            assert forall|i: int| 0 <= i < self.extents@.len() implies !spec_covers(
                #[trigger] self.extents@[i],
                blk_id,
            ) by {
                if i < lo as int {
                    assert(self.extents@[i].block as int + self.extents@[i].len.spec_effective()
                        <= blk_id as int);
                } else {
                    assert(self.extents@[i].block > blk_id);
                }
            }
        }
        None
    }
}

/// Law: no load succeeds from a node whose header is invalid — wrong magic, a
/// depth above the bound, or an entry count past the node's capacity: the
/// traversal of such a node collects nothing.
pub proof fn lemma_bad_header_rejected(env: TreeEnv, node: Seq<u8>, inline: bool)
    requires
        !spec_header_ok(spec_header_at(node, 0)),
    ensures
        spec_collect_node(env, node, inline) is None,
{
}

/// Law: loading is a function of the device model, the checksum seed and the
/// inode's inline bytes alone, so two loads of the same volume and inode that
/// both succeed yield identical extent lists.
pub proof fn lemma_load_idempotent(env: TreeEnv, node: Seq<u8>, t1: ExtentTree, t2: ExtentTree)
    requires
        spec_collect_node(env, node, true) matches Some((s, w)) && t1.extents@
            == spec_sort_extents(s),
        spec_collect_node(env, node, true) matches Some((s, w)) && t2.extents@
            == spec_sort_extents(s),
    ensures
        t1.extents@ == t2.extents@,
{
}

} // verus!
