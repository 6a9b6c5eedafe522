//! Partition dispatch and superblock scenarios: MBR and GPT enumeration,
//! probing only Linux-typed MBR entries, and superblock parsing.

use fzboot::device::MemBlockDevice;
use fzboot::errors::Ext4Error;
use fzboot::inode::Inode;
use fzboot::partitions::{
    parse_gpt_header, parse_mbr, partition_table_for_drive, Partition, PartitionMetadata,
    PartitionTable, PartitionType, PartFS, MBRPartitionEntry, GPTPartitionEntry,
};
use fzboot::superblock::{parse_superblock, Ext4Volume};

const UUID: [u8; 16] = [
    0x00, 0x11, 0x22, 0x33, 0x44, 0x55, 0x66, 0x77, 0x88, 0x99, 0xAA, 0xBB, 0xCC, 0xDD, 0xEE, 0xFF,
];

fn le16(v: &mut Vec<u8>, x: u16) {
    v.push((x & 0xFF) as u8);
    v.push((x >> 8) as u8);
}

fn le32(v: &mut Vec<u8>, x: u32) {
    v.push((x & 0xFF) as u8);
    v.push(((x >> 8) & 0xFF) as u8);
    v.push(((x >> 16) & 0xFF) as u8);
    v.push(((x >> 24) & 0xFF) as u8);
}

fn le64(v: &mut Vec<u8>, x: u64) {
    le32(v, (x & 0xFFFF_FFFF) as u32);
    le32(v, (x >> 32) as u32);
}

fn mbr_entry(ptype: u8, start: u32, count: u32) -> Vec<u8> {
    let mut e = Vec::new();
    e.push(0); // status
    e.extend_from_slice(&[0, 0, 0]); // CHS of the first sector, ignored
    e.push(ptype);
    e.extend_from_slice(&[0, 0, 0]); // CHS of the last sector, ignored
    le32(&mut e, start);
    le32(&mut e, count);
    e
}

fn boot_sector(entries: &[Vec<u8>]) -> Vec<u8> {
    let mut s = vec![0u8; 446];
    for e in entries {
        s.extend_from_slice(e);
    }
    while s.len() < 510 {
        s.push(0);
    }
    s.push(0x55);
    s.push(0xAA);
    s
}

/// A valid ext4 superblock, 1024 bytes: magic at 56, block-size exponent at
/// 24, feature bits at 96, UUID at 104.
fn superblock_bytes(log_block_size: u32, feature_incompat: u32) -> Vec<u8> {
    let mut sb = vec![0u8; 1024];
    sb[56] = 0x53;
    sb[57] = 0xEF;
    let mut tmp = Vec::new();
    le32(&mut tmp, log_block_size);
    sb[24..28].copy_from_slice(&tmp);
    tmp.clear();
    le32(&mut tmp, feature_incompat);
    sb[96..100].copy_from_slice(&tmp);
    sb[104..120].copy_from_slice(&UUID);
    sb
}

/// Places `bytes` at byte offset `off` of `image`, growing it as needed.
fn place(image: &mut Vec<u8>, off: usize, bytes: &[u8]) {
    if image.len() < off + bytes.len() {
        image.resize(off + bytes.len(), 0);
    }
    image[off..off + bytes.len()].copy_from_slice(bytes);
}

fn pad_to_sectors(mut image: Vec<u8>) -> Vec<u8> {
    let rem = image.len() % 512;
    if rem != 0 {
        let new_len = image.len() + 512 - rem;
        image.resize(new_len, 0);
    }
    image
}

#[test]
fn mbr_dispatch_probes_only_linux_native() {
    // Entry 0: Linux native at LBA 2048, with a valid superblock behind it.
    // Entry 1: type 0x07 at LBA 100000, with an equally valid superblock that
    // must never be probed.
    let sector0 = boot_sector(&[
        mbr_entry(0x83, 2048, 8192),
        mbr_entry(0x07, 100_000, 8192),
    ]);
    let mut image = Vec::new();
    place(&mut image, 0, &sector0);
    place(&mut image, 2048 * 512 + 1024, &superblock_bytes(2, 0x40));
    place(&mut image, 100_000 * 512 + 1024, &superblock_bytes(2, 0x40));
    let dev = MemBlockDevice::new(512, pad_to_sectors(image));
    let ps = fzboot::partitions::partitions_for_drive(&dev, 3).unwrap();
    assert_eq!(ps.len(), 4);
    match &ps[0].fs {
        PartFS::Ext4(v) => {
            assert_eq!(v.start_lba, 2048);
            assert_eq!(v.drive_id, 3);
            assert_eq!(v.superblock.block_size, 4096);
            assert_eq!(v.superblock.uuid, UUID.to_vec());
        }
        PartFS::Unknown => panic!("the Linux entry should have mounted"),
    }
    // The 0x07 entry is recorded but never probed or mounted.
    assert!(matches!(ps[1].fs, PartFS::Unknown));
    assert!(matches!(ps[2].fs, PartFS::Unknown));
    assert!(matches!(ps[3].fs, PartFS::Unknown));
    assert_eq!(ps[0].start_lba(), 2048);
    assert_eq!(ps[1].start_lba(), 100_000);
}

#[test]
fn mbr_dispatch_bad_superblock_magic_stays_unknown() {
    let sector0 = boot_sector(&[mbr_entry(0x83, 2048, 8192)]);
    let mut image = Vec::new();
    place(&mut image, 0, &sector0);
    let mut sb = superblock_bytes(2, 0x40);
    sb[56] = 0x00;
    place(&mut image, 2048 * 512 + 1024, &sb);
    let dev = MemBlockDevice::new(512, pad_to_sectors(image));
    let ps = fzboot::partitions::partitions_for_drive(&dev, 0).unwrap();
    assert!(matches!(ps[0].fs, PartFS::Unknown));
}

#[test]
fn missing_mbr_signature_yields_no_partitions() {
    let mut sector0 = boot_sector(&[mbr_entry(0x83, 2048, 8192)]);
    sector0[510] = 0;
    let dev = MemBlockDevice::new(512, pad_to_sectors(sector0));
    let ps = fzboot::partitions::partitions_for_drive(&dev, 0).unwrap();
    assert!(ps.is_empty());
}

#[test]
fn gpt_dispatch_probes_every_entry() {
    // Protective MBR, GPT header in LBA 1, two entries in LBA 2.
    let sector0 = boot_sector(&[mbr_entry(0xEE, 1, 0)]);
    let mut gpt = Vec::new();
    gpt.extend_from_slice(b"EFI PART");
    while gpt.len() < 72 {
        gpt.push(0);
    }
    le64(&mut gpt, 2); // entries array at LBA 2
    le32(&mut gpt, 2); // two entries
    le32(&mut gpt, 128); // of 128 bytes each
    let mut e0 = vec![0u8; 32];
    le64(&mut e0, 2048);
    le64(&mut e0, 2048 + 8191);
    e0.resize(128, 0);
    let mut e1 = vec![0u8; 32];
    le64(&mut e1, 9); // points at empty space: probe fails, stays Unknown
    le64(&mut e1, 9);
    e1.resize(128, 0);
    let mut image = Vec::new();
    place(&mut image, 0, &sector0);
    place(&mut image, 512, &gpt);
    place(&mut image, 1024, &e0);
    place(&mut image, 1024 + 128, &e1);
    place(&mut image, 2048 * 512 + 1024, &superblock_bytes(0, 0x40));
    let dev = MemBlockDevice::new(512, pad_to_sectors(image));
    let ps = fzboot::partitions::partitions_for_drive(&dev, 1).unwrap();
    assert_eq!(ps.len(), 2);
    match &ps[0].fs {
        PartFS::Ext4(v) => {
            assert_eq!(v.start_lba, 2048);
            assert_eq!(v.superblock.block_size, 1024);
        }
        PartFS::Unknown => panic!("the first GPT entry should have mounted"),
    }
    assert!(matches!(ps[1].fs, PartFS::Unknown));
}

#[test]
fn partition_table_classification() {
    // An MBR drive.
    let dev = MemBlockDevice::new(512, boot_sector(&[mbr_entry(0x83, 2048, 8192)]));
    match partition_table_for_drive(&dev).unwrap() {
        PartitionTable::MBR(t) => {
            assert_eq!(t.entries[0].ptype, 0x83);
            assert_eq!(t.entries[0].first_lba, 2048);
        }
        _ => panic!("a signed boot sector without a protective entry is MBR"),
    }
    // A drive without the boot signature.
    let mut unsigned = boot_sector(&[mbr_entry(0x83, 2048, 8192)]);
    unsigned[511] = 0;
    let dev = MemBlockDevice::new(512, unsigned);
    assert!(matches!(
        partition_table_for_drive(&dev).unwrap(),
        PartitionTable::Unknown
    ));
    // A GPT drive.
    let sector0 = boot_sector(&[mbr_entry(0xEE, 1, 0)]);
    let mut gpt = Vec::new();
    gpt.extend_from_slice(b"EFI PART");
    while gpt.len() < 72 {
        gpt.push(0);
    }
    le64(&mut gpt, 2);
    le32(&mut gpt, 3);
    le32(&mut gpt, 128);
    let mut entries = vec![0u8; 3 * 128];
    let mut tmp = Vec::new();
    le64(&mut tmp, 777);
    entries[32..40].copy_from_slice(&tmp);
    let mut image = Vec::new();
    place(&mut image, 0, &sector0);
    place(&mut image, 512, &gpt);
    place(&mut image, 1024, &entries);
    let dev = MemBlockDevice::new(512, pad_to_sectors(image));
    match partition_table_for_drive(&dev).unwrap() {
        PartitionTable::GPT(g) => {
            assert_eq!(g.entries.len(), 3);
            assert_eq!(g.entries[0].first_lba, 777);
            assert_eq!(g.entries[1].first_lba, 0);
        }
        _ => panic!("a protective entry announces GPT"),
    }
}

#[test]
fn from_metadata_never_probes_non_candidates() {
    // An empty device would fail any probe; a non-candidate type must not
    // even try, so the partition still comes back, as Unknown.
    let dev = MemBlockDevice::new(512, Vec::new());
    for t in [0x00u8, 0x05, 0x07, 0x0B, 0x82, 0xEE, 0x42] {
        let meta = PartitionMetadata::MBR(MBRPartitionEntry {
            status: 0,
            ptype: t,
            first_lba: 2048,
            sector_count: 10,
        });
        let p = Partition::from_metadata(0, 0, meta, &dev).unwrap();
        assert!(matches!(p.fs, PartFS::Unknown));
    }
}

#[test]
fn from_metadata_keeps_ids_and_metadata() {
    let dev = MemBlockDevice::new(512, Vec::new());
    let entry = MBRPartitionEntry {
        status: 0x80,
        ptype: 0x0C,
        first_lba: 63,
        sector_count: 1000,
    };
    let mut p = Partition::from_metadata(2, 7, PartitionMetadata::MBR(entry), &dev).unwrap();
    assert_eq!(p.id, 2);
    assert_eq!(p.drive_id, 7);
    assert_eq!(p.start_lba(), 63);
    match p.metadata() {
        PartitionMetadata::MBR(e) => {
            assert_eq!(*e, entry);
            assert_eq!(e.partition_type(), PartitionType::Fat32LBA);
            assert_eq!(e.start_lba(), 63);
        }
        PartitionMetadata::GPT(_) => panic!("metadata scheme changed"),
    }
    *p.metadata_mut() = PartitionMetadata::GPT(GPTPartitionEntry {
        first_lba: 4096,
        last_lba: 8191,
    });
    assert_eq!(p.start_lba(), 4096);
}

#[test]
fn parse_mbr_reads_all_four_entries() {
    let sector = boot_sector(&[
        mbr_entry(0x83, 100, 10),
        mbr_entry(0x07, 200, 20),
        mbr_entry(0x00, 0, 0),
        mbr_entry(0x82, 400, 40),
    ]);
    let t = parse_mbr(&sector).unwrap();
    assert_eq!(t.entries.len(), 4);
    assert_eq!(t.entries[0].ptype, 0x83);
    assert_eq!(t.entries[0].first_lba, 100);
    assert_eq!(t.entries[0].sector_count, 10);
    assert_eq!(t.entries[1].partition_type(), PartitionType::NTFS);
    assert_eq!(t.entries[3].partition_type(), PartitionType::LinuxSwap);
    assert_eq!(t.entries[2].partition_type(), PartitionType::Empty);
}

#[test]
fn parse_gpt_header_checks_signature() {
    let mut h = Vec::new();
    h.extend_from_slice(b"EFI PART");
    while h.len() < 72 {
        h.push(0);
    }
    le64(&mut h, 7);
    le32(&mut h, 44);
    le32(&mut h, 128);
    h.resize(512, 0);
    let parsed = parse_gpt_header(&h).unwrap();
    assert_eq!(parsed.entries_lba, 7);
    assert_eq!(parsed.num_entries, 44);
    assert_eq!(parsed.entry_size, 128);
    let mut bad = h.clone();
    bad[0] = b'X';
    assert!(parse_gpt_header(&bad).is_none());
}

#[test]
fn parse_superblock_reads_the_fields() {
    let sb = parse_superblock(&superblock_bytes(2, 0x40)).unwrap();
    assert_eq!(sb.block_size, 4096);
    assert_eq!(sb.uuid, UUID.to_vec());
    assert_eq!(sb.feature_incompat, 0x40);
    assert!(sb.has_extents_feature());
}

#[test]
fn parse_superblock_rejects_bad_magic() {
    let mut bytes = superblock_bytes(0, 0x40);
    bytes[57] = 0;
    assert!(matches!(parse_superblock(&bytes), Err(Ext4Error::CorruptMetadata)));
}

#[test]
fn parse_superblock_rejects_huge_block_size() {
    let bytes = superblock_bytes(7, 0x40);
    assert!(matches!(parse_superblock(&bytes), Err(Ext4Error::UnsupportedFeature)));
}

#[test]
fn identify_answers_the_magic_probe() {
    let mut image = Vec::new();
    place(&mut image, 2048 * 512 + 1024, &superblock_bytes(0, 0x40));
    let dev = MemBlockDevice::new(512, pad_to_sectors(image));
    assert_eq!(Ext4Volume::identify(&dev, 2048), Ok(true));
    assert_eq!(Ext4Volume::identify(&dev, 16), Ok(false));
}

#[test]
fn mount_builds_the_volume() {
    let mut image = Vec::new();
    place(&mut image, 2048 * 512 + 1024, &superblock_bytes(1, 0x40));
    let dev = MemBlockDevice::new(512, pad_to_sectors(image));
    let v = Ext4Volume::mount(&dev, 5, 1, 2048).unwrap();
    assert_eq!(v.drive_id, 5);
    assert_eq!(v.part_id, 1);
    assert_eq!(v.start_lba, 2048);
    assert_eq!(v.superblock.block_size, 2048);
}

#[test]
fn inode_record_parsing() {
    let mut record = vec![0u8; 256];
    let mut tmp = Vec::new();
    le32(&mut tmp, 0x8_0000);
    record[32..36].copy_from_slice(&tmp);
    tmp.clear();
    le32(&mut tmp, 0xDEADBEEF);
    record[100..104].copy_from_slice(&tmp);
    for k in 0..60 {
        record[40 + k] = k as u8;
    }
    let ino = Inode::parse_record(12, &record).unwrap();
    assert_eq!(ino.number, 12);
    assert_eq!(ino.generation, 0xDEADBEEF);
    assert!(ino.uses_extents);
    assert_eq!(ino.i_block.len(), 60);
    assert_eq!(ino.i_block[10], 10);
    let short = vec![0u8; 100];
    assert!(Inode::parse_record(1, &short).is_err());
}
