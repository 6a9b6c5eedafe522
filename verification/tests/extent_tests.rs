//! End-to-end scenarios for the extent-tree reader: inline leaves,
//! uninitialized extents, one interior level, checksum damage, and corrupt
//! headers, plus the tree invariants on concrete trees.

use fzboot::crc32c::crc32c_calc;
use fzboot::device::MemBlockDevice;
use fzboot::errors::{Ext4Error, IoError};
use fzboot::extent::{BlockMapping, Ext4ExtentHeaderDepth, Ext4ExtentLength, ExtentTree};
use fzboot::inode::Inode;
use fzboot::superblock::{Ext4Volume, Superblock};

const UUID: [u8; 16] = [
    0x00, 0x11, 0x22, 0x33, 0x44, 0x55, 0x66, 0x77, 0x88, 0x99, 0xAA, 0xBB, 0xCC, 0xDD, 0xEE, 0xFF,
];
const INODE_NUMBER: u32 = 12;
const INODE_GENERATION: u32 = 0xDEADBEEF;
const BLOCK_SIZE: u32 = 4096;

fn le16(v: &mut Vec<u8>, x: u16) {
    v.push((x & 0xFF) as u8);
    v.push((x >> 8) as u8);
}

fn le32(v: &mut Vec<u8>, x: u32) {
    v.push((x & 0xFF) as u8);
    v.push(((x >> 8) & 0xFF) as u8);
    v.push(((x >> 16) & 0xFF) as u8);
    v.push(((x >> 24) & 0xFF) as u8);
}

fn header(magic: u16, entries: u16, max: u16, depth: u16, generation: u32) -> Vec<u8> {
    let mut v = Vec::new();
    le16(&mut v, magic);
    le16(&mut v, entries);
    le16(&mut v, max);
    le16(&mut v, depth);
    le32(&mut v, generation);
    v
}

fn extent_record(first: u32, len: u16, start: u64) -> Vec<u8> {
    let mut v = Vec::new();
    le32(&mut v, first);
    le16(&mut v, len);
    le16(&mut v, (start >> 32) as u16);
    le32(&mut v, (start & 0xFFFF_FFFF) as u32);
    v
}

fn idx_record(first: u32, child: u64) -> Vec<u8> {
    let mut v = Vec::new();
    le32(&mut v, first);
    le32(&mut v, (child & 0xFFFF_FFFF) as u32);
    le16(&mut v, (child >> 32) as u16);
    le16(&mut v, 0);
    v
}

/// The 60 inline bytes: a header, its records, zero padding.
fn inline_node(mut head: Vec<u8>, records: &[Vec<u8>]) -> Vec<u8> {
    for r in records {
        head.extend_from_slice(r);
    }
    while head.len() < 60 {
        head.push(0);
    }
    head
}

/// A full checksummed extent block: header, records, padding, CRC32C tail.
fn checksummed_block(mut head: Vec<u8>, records: &[Vec<u8>]) -> Vec<u8> {
    for r in records {
        head.extend_from_slice(r);
    }
    while head.len() < BLOCK_SIZE as usize - 4 {
        head.push(0);
    }
    let mut domain: Vec<u8> = Vec::new();
    domain.extend_from_slice(&UUID);
    le32(&mut domain, INODE_NUMBER);
    le32(&mut domain, INODE_GENERATION);
    domain.extend_from_slice(&head);
    let tail = crc32c_calc(&domain);
    le32(&mut head, tail);
    head
}

fn test_volume() -> Ext4Volume {
    Ext4Volume {
        drive_id: 0,
        part_id: 0,
        start_lba: 0,
        superblock: Superblock {
            block_size: BLOCK_SIZE,
            uuid: UUID.to_vec(),
            feature_incompat: 0x40,
        },
    }
}

fn test_inode(i_block: Vec<u8>) -> Inode {
    Inode::new(INODE_NUMBER, INODE_GENERATION, true, i_block).unwrap()
}

/// A device whose filesystem blocks at the given physical numbers hold the
/// given bytes; everything else is zeros.
fn device_with_blocks(blocks: &[(u64, Vec<u8>)]) -> MemBlockDevice {
    let top = blocks.iter().map(|(b, _)| b + 1).max().unwrap_or(1);
    let mut image = vec![0u8; (top * BLOCK_SIZE as u64) as usize];
    for (b, data) in blocks {
        let off = (*b * BLOCK_SIZE as u64) as usize;
        image[off..off + data.len()].copy_from_slice(data);
    }
    MemBlockDevice::new(512, image)
}

fn load(dev: &MemBlockDevice, i_block: Vec<u8>) -> Result<Option<ExtentTree>, Ext4Error> {
    ExtentTree::load_extent_tree(dev, &test_volume(), &test_inode(i_block))
}

fn lookup(tree: &ExtentTree, b: u64) -> Option<BlockMapping> {
    tree.get_exact_blk_mapping(b)
}

#[test]
fn inline_leaf_one_extent() {
    let node = inline_node(
        header(0xF30A, 1, 4, 0, 0),
        &[extent_record(0, 8, 1000)],
    );
    let dev = MemBlockDevice::new(512, Vec::new());
    let tree = load(&dev, node).unwrap().unwrap();
    assert_eq!(lookup(&tree, 0), Some(BlockMapping::Mapped(1000)));
    assert_eq!(lookup(&tree, 7), Some(BlockMapping::Mapped(1007)));
    // The covered range is half-open: eight blocks starting at 0 end at 7.
    assert_eq!(lookup(&tree, 8), None);
    assert_eq!(lookup(&tree, 9), None);
}

#[test]
fn uninitialized_extent_reads_as_zero() {
    let node = inline_node(
        header(0xF30A, 1, 4, 0, 0),
        &[extent_record(0, 32768 + 4, 2000)],
    );
    let dev = MemBlockDevice::new(512, Vec::new());
    let tree = load(&dev, node).unwrap().unwrap();
    assert_eq!(lookup(&tree, 0), Some(BlockMapping::Zero));
    assert_eq!(lookup(&tree, 3), Some(BlockMapping::Zero));
    assert_eq!(lookup(&tree, 4), None);
}

fn one_interior_level_image() -> (Vec<u8>, MemBlockDevice) {
    let node = inline_node(
        header(0xF30A, 2, 4, 1, 0),
        &[idx_record(0, 5000), idx_record(4, 5001)],
    );
    let left = checksummed_block(header(0xF30A, 1, 4, 0, 0), &[extent_record(0, 4, 10000)]);
    let right = checksummed_block(header(0xF30A, 1, 4, 0, 0), &[extent_record(4, 4, 20000)]);
    let dev = device_with_blocks(&[(5000, left), (5001, right)]);
    (node, dev)
}

#[test]
fn one_interior_level() {
    let (node, dev) = one_interior_level_image();
    let tree = load(&dev, node).unwrap().unwrap();
    assert_eq!(tree.checksum_warnings, 0);
    assert_eq!(lookup(&tree, 0), Some(BlockMapping::Mapped(10000)));
    assert_eq!(lookup(&tree, 5), Some(BlockMapping::Mapped(20001)));
    assert_eq!(lookup(&tree, 8), None);
}

#[test]
fn bad_child_checksum_is_soft() {
    let node = inline_node(
        header(0xF30A, 2, 4, 1, 0),
        &[idx_record(0, 5000), idx_record(4, 5001)],
    );
    let left = checksummed_block(header(0xF30A, 1, 4, 0, 0), &[extent_record(0, 4, 10000)]);
    let mut right = checksummed_block(header(0xF30A, 1, 4, 0, 0), &[extent_record(4, 4, 20000)]);
    let n = right.len();
    right[n - 4..].fill(0);
    let dev = device_with_blocks(&[(5000, left), (5001, right)]);
    let tree = load(&dev, node).unwrap().unwrap();
    // Exactly one mismatch is counted, and the intact half still answers.
    assert_eq!(tree.checksum_warnings, 1);
    assert_eq!(lookup(&tree, 0), Some(BlockMapping::Mapped(10000)));
    assert_eq!(lookup(&tree, 3), Some(BlockMapping::Mapped(10003)));
}

#[test]
fn flipping_one_body_bit_counts_one_warning() {
    let node = inline_node(
        header(0xF30A, 2, 4, 1, 0),
        &[idx_record(0, 5000), idx_record(4, 5001)],
    );
    let mut damaged = checksummed_block(header(0xF30A, 1, 4, 0, 0), &[extent_record(0, 4, 10000)]);
    damaged[100] ^= 1;
    let right = checksummed_block(header(0xF30A, 1, 4, 0, 0), &[extent_record(4, 4, 20000)]);
    let dev = device_with_blocks(&[(5000, damaged), (5001, right)]);
    let tree = load(&dev, node).unwrap().unwrap();
    assert_eq!(tree.checksum_warnings, 1);
}

#[test]
fn bad_magic_is_corrupt_metadata() {
    let node = inline_node(
        header(0x1234, 1, 4, 0, 0),
        &[extent_record(0, 8, 1000)],
    );
    let dev = MemBlockDevice::new(512, Vec::new());
    assert!(matches!(load(&dev, node), Err(Ext4Error::CorruptMetadata)));
}

#[test]
fn depth_above_five_is_corrupt_metadata() {
    let node = inline_node(header(0xF30A, 0, 4, 6, 0), &[]);
    let dev = MemBlockDevice::new(512, Vec::new());
    assert!(matches!(load(&dev, node), Err(Ext4Error::CorruptMetadata)));
}

#[test]
fn entries_above_max_is_corrupt_metadata() {
    let node = inline_node(
        header(0xF30A, 2, 1, 0, 0),
        &[extent_record(0, 4, 1000), extent_record(4, 4, 2000)],
    );
    let dev = MemBlockDevice::new(512, Vec::new());
    assert!(matches!(load(&dev, node), Err(Ext4Error::CorruptMetadata)));
}

#[test]
fn overlapping_extents_are_corrupt_metadata() {
    let node = inline_node(
        header(0xF30A, 2, 4, 0, 0),
        &[extent_record(0, 8, 1000), extent_record(4, 4, 2000)],
    );
    let dev = MemBlockDevice::new(512, Vec::new());
    assert!(matches!(load(&dev, node), Err(Ext4Error::CorruptMetadata)));
}

#[test]
fn zero_length_extent_is_corrupt_metadata() {
    let node = inline_node(header(0xF30A, 1, 4, 0, 0), &[extent_record(0, 0, 1000)]);
    let dev = MemBlockDevice::new(512, Vec::new());
    assert!(matches!(load(&dev, node), Err(Ext4Error::CorruptMetadata)));
}

#[test]
fn missing_child_block_is_io_error() {
    let node = inline_node(header(0xF30A, 1, 4, 1, 0), &[idx_record(0, 5000)]);
    // The image ends long before physical block 5000.
    let dev = MemBlockDevice::new(512, vec![0u8; 4096]);
    assert!(matches!(load(&dev, node), Err(Ext4Error::Io(IoError::ShortRead))));
}

#[test]
fn inode_without_extents_flag_is_not_applicable() {
    let node = inline_node(header(0xF30A, 1, 4, 0, 0), &[extent_record(0, 8, 1000)]);
    let dev = MemBlockDevice::new(512, Vec::new());
    let inode = Inode::new(INODE_NUMBER, INODE_GENERATION, false, node).unwrap();
    let r = ExtentTree::load_extent_tree(&dev, &test_volume(), &inode);
    assert!(matches!(r, Ok(None)));
}

#[test]
fn volume_without_extents_feature_is_not_applicable() {
    let node = inline_node(header(0xF30A, 1, 4, 0, 0), &[extent_record(0, 8, 1000)]);
    let dev = MemBlockDevice::new(512, Vec::new());
    let mut vol = test_volume();
    vol.superblock.feature_incompat = 0;
    let r = ExtentTree::load_extent_tree(&dev, &vol, &test_inode(node));
    assert!(matches!(r, Ok(None)));
}

#[test]
fn indivisible_geometry_is_unsupported() {
    let node = inline_node(header(0xF30A, 1, 4, 0, 0), &[extent_record(0, 8, 1000)]);
    let dev = MemBlockDevice::new(4096, Vec::new());
    let mut vol = test_volume();
    vol.superblock.block_size = 1024;
    let r = ExtentTree::load_extent_tree(&dev, &vol, &test_inode(node));
    assert!(matches!(r, Err(Ext4Error::UnsupportedFeature)));
}

#[test]
fn loaded_extents_are_sorted_and_disjoint() {
    let node = inline_node(
        header(0xF30A, 3, 4, 0, 0),
        &[
            extent_record(8, 4, 3000),
            extent_record(0, 4, 1000),
            extent_record(4, 4, 2000),
        ],
    );
    let dev = MemBlockDevice::new(512, Vec::new());
    let tree = load(&dev, node).unwrap().unwrap();
    assert_eq!(tree.extents.len(), 3);
    for w in tree.extents.windows(2) {
        let end = w[0].block as u64 + w[0].len.length() as u64;
        assert!(end <= w[1].block as u64);
    }
    assert_eq!(tree.extents[0].block, 0);
    assert_eq!(tree.extents[1].block, 4);
    assert_eq!(tree.extents[2].block, 8);
}

#[test]
fn loading_twice_is_idempotent() {
    let (node, dev) = one_interior_level_image();
    let t1 = load(&dev, node.clone()).unwrap().unwrap();
    let t2 = load(&dev, node).unwrap().unwrap();
    assert_eq!(t1.extents, t2.extents);
    assert_eq!(t1.checksum_warnings, t2.checksum_warnings);
}

#[test]
fn lookup_covers_every_block_of_every_extent() {
    let (node, dev) = one_interior_level_image();
    let tree = load(&dev, node).unwrap().unwrap();
    for e in tree.extents.iter() {
        for off in 0..e.len.length() as u64 {
            let b = e.block as u64 + off;
            assert_eq!(
                lookup(&tree, b),
                Some(BlockMapping::Mapped(e.start_blk() + off))
            );
        }
    }
    // And nothing outside any extent answers.
    assert_eq!(lookup(&tree, 123456), None);
}

#[test]
fn empty_tree_maps_nothing() {
    let node = inline_node(header(0xF30A, 0, 4, 0, 0), &[]);
    let dev = MemBlockDevice::new(512, Vec::new());
    let tree = load(&dev, node).unwrap().unwrap();
    assert!(tree.extents.is_empty());
    assert_eq!(lookup(&tree, 0), None);
    assert_eq!(lookup(&tree, u64::MAX), None);
}

#[test]
fn largest_initialized_extent() {
    let node = inline_node(header(0xF30A, 1, 4, 0, 0), &[extent_record(7, 32768, 90000)]);
    let dev = MemBlockDevice::new(512, Vec::new());
    let tree = load(&dev, node).unwrap().unwrap();
    assert_eq!(lookup(&tree, 7), Some(BlockMapping::Mapped(90000)));
    assert_eq!(
        lookup(&tree, 7 + 32767),
        Some(BlockMapping::Mapped(90000 + 32767))
    );
    assert_eq!(lookup(&tree, 7 + 32768), None);
    assert_eq!(lookup(&tree, 6), None);
}

#[test]
fn set_depth_refuses_depths_above_five() {
    let mut d = Ext4ExtentHeaderDepth(0);
    assert!(d.set_depth(5).is_ok());
    assert_eq!(d.0, 5);
    assert_eq!(d.set_depth(6), Err(IoError::InvalidCommand));
    assert_eq!(d.0, 5);
}

#[test]
fn extent_length_encoding() {
    assert!(Ext4ExtentLength(1).is_initialized());
    assert!(Ext4ExtentLength(32768).is_initialized());
    assert!(!Ext4ExtentLength(32769).is_initialized());
    assert_eq!(Ext4ExtentLength(32768).length(), 32768);
    assert_eq!(Ext4ExtentLength(32769).length(), 1);
    assert_eq!(Ext4ExtentLength(32772).length(), 4);
}

#[test]
fn forty_eight_bit_block_numbers_compose() {
    let node = inline_node(
        header(0xF30A, 1, 4, 0, 0),
        &[extent_record(0, 1, 0x1_2345_6789)],
    );
    let dev = MemBlockDevice::new(512, Vec::new());
    let tree = load(&dev, node).unwrap().unwrap();
    assert_eq!(tree.extents[0].start_blk(), 0x1_2345_6789);
    assert_eq!(lookup(&tree, 0), Some(BlockMapping::Mapped(0x1_2345_6789)));
}
