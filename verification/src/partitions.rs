//! Partition-table dispatch: reading the first sector of a drive, telling MBR
//! from GPT, enumerating partition entries, and probing Linux-typed entries
//! for an ext4 volume.
//!
//! Only the `LinuxNative` MBR type (byte `0x83`) is acted on; every other
//! recognized type is recorded and skipped rather than treated as fatal. A GPT
//! drive has each of its entries probed, whatever its type GUID.

use vstd::prelude::*;

use crate::bytes::{le16_at, read_le32, read_le64};
use crate::device::{read_sectors, BlockDevice};
use crate::errors::IoError;
use crate::superblock::{
    spec_parse_superblock, spec_sb_bytes, Ext4Volume, EXT4_SUPER_MAGIC,
};

verus! {

/// The closed set of MBR partition types the dispatcher recognizes.
///
/// The on-disk byte `0x07` is historically shared by `OS2IFS`, `NTFS` and
/// `EXFAT`; a byte alone cannot tell them apart, so decoding settles on `NTFS`
/// and a rider that cares must probe the filesystem's own magic. The variants
/// stay in the set so the classification remains closed.
#[derive(Clone, Copy, Debug, PartialEq, Eq, Structural)]
pub enum PartitionType {
    Empty,
    DOSFat12,
    XenixRoot,
    XenixUsr,
    DOS3Fat16,
    Extended,
    DOS331Fat16,
    OS2IFS,
    NTFS,
    Fat32,
    Fat32LBA,
    EXFAT,
    DOSFat16LBA,
    ExtendedLBA,
    LinuxSwap,
    LinuxNative,
    LinuxExtended,
    LinuxLVM,
    BSDI,
    OpenBSD,
    MacOSX,
    MacOSXBoot,
    MacOSXHFS,
    LUKS,
    GPT,
    Unknown,
}

/// The partition type a type byte decodes to.
pub open spec fn spec_partition_type_of(b: u8) -> PartitionType {
    if b == 0x00 {
        PartitionType::Empty
    } else if b == 0x01 {
        PartitionType::DOSFat12
    } else if b == 0x02 {
        PartitionType::XenixRoot
    } else if b == 0x03 {
        PartitionType::XenixUsr
    } else if b == 0x04 {
        PartitionType::DOS3Fat16
    } else if b == 0x05 {
        PartitionType::Extended
    } else if b == 0x06 {
        PartitionType::DOS331Fat16
    } else if b == 0x07 {
        PartitionType::NTFS
    } else if b == 0x0B {
        PartitionType::Fat32
    } else if b == 0x0C {
        PartitionType::Fat32LBA
    } else if b == 0x0E {
        PartitionType::DOSFat16LBA
    } else if b == 0x0F {
        PartitionType::ExtendedLBA
    } else if b == 0x82 {
        PartitionType::LinuxSwap
    } else if b == 0x83 {
        PartitionType::LinuxNative
    } else if b == 0x85 {
        PartitionType::LinuxExtended
    } else if b == 0x8E {
        PartitionType::LinuxLVM
    } else if b == 0x9F {
        PartitionType::BSDI
    } else if b == 0xA6 {
        PartitionType::OpenBSD
    } else if b == 0xA8 {
        PartitionType::MacOSX
    } else if b == 0xAB {
        PartitionType::MacOSXBoot
    } else if b == 0xAF {
        PartitionType::MacOSXHFS
    } else if b == 0xE8 {
        PartitionType::LUKS
    } else if b == 0xEE {
        PartitionType::GPT
    } else {
        PartitionType::Unknown
    }
}

/// One 16-byte MBR partition-table entry.
#[derive(Clone, Copy, Debug, PartialEq, Eq, Structural)]
pub struct MBRPartitionEntry {
    /// The status byte at offset 0 of the entry.
    pub status: u8,
    /// The partition type byte at offset 4.
    pub ptype: u8,
    /// The partition's first LBA, little-endian at offset 8.
    pub first_lba: u32,
    /// The partition's sector count, little-endian at offset 12.
    pub sector_count: u32,
}

/// The MBR entry encoded at byte `off` of `s`.
pub open spec fn spec_mbr_entry_at(s: Seq<u8>, off: int) -> MBRPartitionEntry {
    MBRPartitionEntry {
        status: s[off],
        ptype: s[off + 4],
        first_lba: crate::bytes::le32_at(s, off + 8),
        sector_count: crate::bytes::le32_at(s, off + 12),
    }
}

impl MBRPartitionEntry {
    /// The partition type this entry's type byte decodes to.
    pub fn partition_type(&self) -> (t: PartitionType)
        ensures
            t == spec_partition_type_of(self.ptype),
    {
        let b = self.ptype;
        if b == 0x00 {
            PartitionType::Empty
        } else if b == 0x01 {
            PartitionType::DOSFat12
        } else if b == 0x02 {
            PartitionType::XenixRoot
        } else if b == 0x03 {
            PartitionType::XenixUsr
        } else if b == 0x04 {
            PartitionType::DOS3Fat16
        } else if b == 0x05 {
            PartitionType::Extended
        } else if b == 0x06 {
            PartitionType::DOS331Fat16
        } else if b == 0x07 {
            PartitionType::NTFS
        } else if b == 0x0B {
            PartitionType::Fat32
        } else if b == 0x0C {
            PartitionType::Fat32LBA
        } else if b == 0x0E {
            PartitionType::DOSFat16LBA
        } else if b == 0x0F {
            PartitionType::ExtendedLBA
        } else if b == 0x82 {
            PartitionType::LinuxSwap
        } else if b == 0x83 {
            PartitionType::LinuxNative
        } else if b == 0x85 {
            PartitionType::LinuxExtended
        } else if b == 0x8E {
            PartitionType::LinuxLVM
        } else if b == 0x9F {
            PartitionType::BSDI
        } else if b == 0xA6 {
            PartitionType::OpenBSD
        } else if b == 0xA8 {
            PartitionType::MacOSX
        } else if b == 0xAB {
            PartitionType::MacOSXBoot
        } else if b == 0xAF {
            PartitionType::MacOSXHFS
        } else if b == 0xE8 {
            PartitionType::LUKS
        } else if b == 0xEE {
            PartitionType::GPT
        } else {
            PartitionType::Unknown
        }
    }

    /// This entry's first LBA.
    pub fn start_lba(&self) -> (r: u32)
        ensures
            r == self.first_lba,
    {
        self.first_lba
    }
}

/// The four entries of a master boot record's partition table.
pub struct MBRPartitionTable {
    /// The four table entries, in on-disk order.
    pub entries: Vec<MBRPartitionEntry>,
}

/// The MBR table encoded in a boot sector: four 16-byte entries at offset
/// `0x1BE`, guarded by the `0x55 0xAA` signature at offset `0x1FE`.
pub open spec fn spec_parse_mbr(s: Seq<u8>) -> Option<Seq<MBRPartitionEntry>> {
    if s.len() < 512 || s[510] != 0x55 || s[511] != 0xAA {
        None
    } else {
        Some(Seq::new(4, |i: int| spec_mbr_entry_at(s, 446 + 16 * i)))
    }
}

/// Parses the partition table out of a boot sector.
pub fn parse_mbr(sector: &Vec<u8>) -> (r: Option<MBRPartitionTable>)
    ensures
        match r {
            Some(t) => spec_parse_mbr(sector@) == Some(t.entries@),
            None => spec_parse_mbr(sector@) is None,
        },
{
    let n = sector.len();
    if n < 512 {
        return None;
    }
    if !(sector[510] == 0x55 && sector[511] == 0xAA) {
        return None;
    }
    let mut entries: Vec<MBRPartitionEntry> = Vec::new();
    let mut k: usize = 0;
    while k < 4
        invariant
            k <= 4,
            sector@.len() >= 512,
            entries@ == Seq::new(k as nat, |i: int| spec_mbr_entry_at(sector@, 446 + 16 * i)),
        decreases 4 - k,
    {
        let off = 446 + 16 * k;
        let n2 = sector.len();
        assert(off + 16 <= n2);
        let e = MBRPartitionEntry {
            status: sector[off],
            ptype: sector[off + 4],
            first_lba: read_le32(sector, off + 8),
            sector_count: read_le32(sector, off + 12),
        };
        entries.push(e);
        k = k + 1;
        assert(entries@ =~= Seq::new(k as nat, |i: int| spec_mbr_entry_at(sector@, 446 + 16 * i)));
    }
    Some(MBRPartitionTable { entries })
}

/// One GPT partition entry: the LBA range it covers.
#[derive(Clone, Copy, Debug, PartialEq, Eq, Structural)]
pub struct GPTPartitionEntry {
    /// The partition's first LBA, little-endian at offset 32 of the entry.
    pub first_lba: u64,
    /// The partition's last LBA, little-endian at offset 40.
    pub last_lba: u64,
}

impl GPTPartitionEntry {
    /// This entry's first LBA.
    pub fn start_lba(&self) -> (r: u64)
        ensures
            r == self.first_lba,
    {
        self.first_lba
    }
}

/// The GPT entry encoded at byte `off` of `s`.
pub open spec fn spec_gpt_entry_at(s: Seq<u8>, off: int) -> GPTPartitionEntry {
    GPTPartitionEntry {
        first_lba: crate::bytes::le64_at(s, off + 32),
        last_lba: crate::bytes::le64_at(s, off + 40),
    }
}

/// What a GPT header yields: where the entries array starts, how many entries
/// it holds, and their stride.
#[derive(Clone, Copy, Debug, PartialEq, Eq, Structural)]
pub struct GPTHeader {
    /// First LBA of the partition-entry array.
    pub entries_lba: u64,
    /// Number of entries in the array.
    pub num_entries: u32,
    /// Size of one entry, in bytes.
    pub entry_size: u32,
}

/// Whether `s` opens with the GPT signature `EFI PART`.
pub open spec fn spec_gpt_signature_ok(s: Seq<u8>) -> bool {
    s.len() >= 92 && s[0] == 0x45 && s[1] == 0x46 && s[2] == 0x49 && s[3] == 0x20 && s[4] == 0x50
        && s[5] == 0x41 && s[6] == 0x52 && s[7] == 0x54
}

/// The GPT header encoded in the sector at LBA 1.
pub open spec fn spec_parse_gpt_header(s: Seq<u8>) -> Option<GPTHeader> {
    if !spec_gpt_signature_ok(s) {
        None
    } else {
        Some(
            GPTHeader {
                entries_lba: crate::bytes::le64_at(s, 72),
                num_entries: crate::bytes::le32_at(s, 80),
                entry_size: crate::bytes::le32_at(s, 84),
            },
        )
    }
}

/// Parses a GPT header out of its sector.
pub fn parse_gpt_header(bytes: &Vec<u8>) -> (r: Option<GPTHeader>)
    ensures
        match r {
            Some(h) => spec_parse_gpt_header(bytes@) == Some(h),
            None => spec_parse_gpt_header(bytes@) is None,
        },
{
    let n = bytes.len();
    if n < 92 {
        return None;
    }
    if !(bytes[0] == 0x45 && bytes[1] == 0x46 && bytes[2] == 0x49 && bytes[3] == 0x20 && bytes[4]
        == 0x50 && bytes[5] == 0x41 && bytes[6] == 0x52 && bytes[7] == 0x54) {
        return None;
    }
    Some(
        GPTHeader {
            entries_lba: read_le64(bytes, 72),
            num_entries: read_le32(bytes, 80),
            entry_size: read_le32(bytes, 84),
        },
    )
}

/// The entries of a GUID partition table.
pub struct GUIDPartitionTable {
    /// The table's entries, in on-disk order.
    pub entries: Vec<GPTPartitionEntry>,
}

/// A partition table of either scheme, or none that the dispatcher knows.
pub enum PartitionTable {
    MBR(MBRPartitionTable),
    GPT(GUIDPartitionTable),
    Unknown,
}

/// The original table entry a partition was built from, in either scheme.
#[derive(Clone, Copy, Debug, PartialEq, Eq, Structural)]
pub enum PartitionMetadata {
    MBR(MBRPartitionEntry),
    GPT(GPTPartitionEntry),
}

/// The first LBA a metadata entry points at.
pub open spec fn spec_meta_start_lba(m: PartitionMetadata) -> u64 {
    match m {
        PartitionMetadata::MBR(e) => e.first_lba as u64,
        PartitionMetadata::GPT(e) => e.first_lba,
    }
}

/// Whether the dispatcher probes this entry for ext4 at all: every GPT entry
/// is probed; of the MBR types, only `LinuxNative`.
pub open spec fn spec_is_probe_candidate(m: PartitionMetadata) -> bool {
    match m {
        PartitionMetadata::MBR(e) => spec_partition_type_of(e.ptype) == PartitionType::LinuxNative,
        PartitionMetadata::GPT(_) => true,
    }
}

/// The filesystem mounted on a partition: a closed variant set that new
/// filesystems extend.
pub enum PartFS {
    Unknown,
    Ext4(Ext4Volume),
}

/// Whether an ext4 volume is a sound mount of the partition that starts at
/// `start`: the superblock bytes there carry the ext4 magic, parse
/// successfully, and are what the volume holds.
pub open spec fn spec_mount_sound<D: BlockDevice>(
    dev: &D,
    start: u64,
    drive_id: usize,
    part_id: usize,
    v: Ext4Volume,
) -> bool {
    let sb = spec_sb_bytes(dev.sectors(), dev.sector_size_spec(), start as int);
    &&& le16_at(sb, 56) == EXT4_SUPER_MAGIC
    &&& spec_parse_superblock(sb) matches Ok(m) && v.superblock@ == m
    &&& v.wf()
    &&& v.start_lba == start
    &&& v.drive_id == drive_id
    &&& v.part_id == part_id
}

/// Probes `start` for an ext4 superblock and mounts it on success. `None`
/// reports a device failure during the probe; a failed probe or mount yields
/// `Unknown`, never an error, so the dispatcher can move to the next
/// candidate.
fn probe_and_mount<D: BlockDevice>(dev: &D, drive_id: usize, part_id: usize, start: u64) -> (r:
    Option<PartFS>)
    ensures
        r matches Some(fs) ==> (fs matches PartFS::Ext4(v) ==> spec_mount_sound(
            dev,
            start,
            drive_id,
            part_id,
            v,
        )),
{
    match Ext4Volume::identify(dev, start) {
        Err(_) => None,
        Ok(false) => Some(PartFS::Unknown),
        Ok(true) => match Ext4Volume::mount(dev, drive_id, part_id, start) {
            Ok(v) => Some(PartFS::Ext4(v)),
            Err(_) => Some(PartFS::Unknown),
        },
    }
}

/// A partition, independent of the scheme it was found in.
pub struct Partition {
    /// The partition's index within its table.
    pub id: usize,
    /// The drive the partition lives on.
    pub drive_id: usize,
    /// The original table entry this partition was built from.
    pub metadata: PartitionMetadata,
    /// The filesystem mounted on the partition, if any was identified.
    pub fs: PartFS,
}

impl Partition {
    /// Builds a `Partition` from a partition-table entry, probing and
    /// mounting ext4 where the entry is a candidate.
    ///
    /// An entry whose type is not acted on is recorded with `fs` set to
    /// `Unknown` and is never probed; `None` is only ever the result of a
    /// device failure while probing a candidate.
    pub fn from_metadata<D: BlockDevice>(
        part_id: usize,
        drive_id: usize,
        metadata: PartitionMetadata,
        dev: &D,
    ) -> (r: Option<Partition>)
        ensures
            r matches Some(p) ==> p.id == part_id && p.drive_id == drive_id && p.metadata
                == metadata,
            !spec_is_probe_candidate(metadata) ==> (r matches Some(p) && p.fs is Unknown),
            r matches Some(p) ==> (p.fs matches PartFS::Ext4(v) ==> spec_is_probe_candidate(
                metadata,
            ) && spec_mount_sound(dev, spec_meta_start_lba(metadata), drive_id, part_id, v)),
    {
        let fs = match metadata {
            PartitionMetadata::MBR(meta) => match meta.partition_type() {
                PartitionType::LinuxNative => {
                    match probe_and_mount(dev, drive_id, part_id, meta.start_lba() as u64) {
                        Some(fs) => fs,
                        None => {
                            return None;
                        },
                    }
                },
                _ => PartFS::Unknown,
            },
            PartitionMetadata::GPT(meta) => {
                match probe_and_mount(dev, drive_id, part_id, meta.start_lba()) {
                    Some(fs) => fs,
                    None => {
                        return None;
                    },
                }
            },
        };
        Some(Partition { id: part_id, drive_id, metadata, fs })
    }

    /// Returns this partition's starting LBA.
    pub fn start_lba(&self) -> (r: u64)
        ensures
            r == spec_meta_start_lba(self.metadata),
    {
        match &self.metadata {
            PartitionMetadata::MBR(meta) => meta.start_lba() as u64,
            PartitionMetadata::GPT(meta) => meta.start_lba(),
        }
    }

    /// Returns the partition-format-dependent metadata: the original table
    /// entry for this partition.
    pub fn metadata(&self) -> (r: &PartitionMetadata)
        ensures
            *r == self.metadata,
    {
        &self.metadata
    }

    /// Returns the partition-format-dependent metadata, mutably.
    pub fn metadata_mut(&mut self) -> (r: &mut PartitionMetadata)
        ensures
            *r == old(self).metadata,
            final(self).metadata == *final(r),
            final(self).id == old(self).id,
            final(self).drive_id == old(self).drive_id,
            final(self).fs == old(self).fs,
    {
        &mut self.metadata
    }
}

/// What the enumerator guarantees of each partition it returns: it belongs to
/// the asked drive; a mounted ext4 volume is a sound mount of the partition's
/// own start; and a partition built from an MBR entry is one of the four
/// entries of the drive's boot sector, at its own index.
pub open spec fn spec_enumerated_ok<D: BlockDevice>(dev: &D, p: Partition, drive_id: usize) -> bool {
    &&& p.drive_id == drive_id
    &&& match p.fs {
        PartFS::Ext4(v) => spec_mount_sound(
            dev,
            spec_meta_start_lba(p.metadata),
            drive_id,
            p.id,
            v,
        ),
        PartFS::Unknown => true,
    }
    &&& match p.metadata {
        PartitionMetadata::MBR(e) => p.id < 4 && (spec_parse_mbr(dev.sectors()[0]) matches Some(es)
            && e == es[p.id as int]),
        PartitionMetadata::GPT(_) => true,
    }
}

/// Whether an MBR table announces GPT through a protective `0xEE` entry.
pub open spec fn spec_has_protective_entry(es: Seq<MBRPartitionEntry>) -> bool {
    exists|k: int| 0 <= k < es.len() && (#[trigger] es[k]).ptype == 0xEE
}

/// How many sectors the GPT entry array spans, rounded up.
pub open spec fn spec_gpt_entry_sectors(h: GPTHeader, ssz: nat) -> int {
    (h.num_entries * h.entry_size + ssz - 1) / (ssz as int)
}

/// Whether a parsed GPT header is one the enumerator will walk: a sane entry
/// count and stride, and an entry array that stays within addressable LBAs.
pub open spec fn spec_gpt_header_usable(h: GPTHeader, ssz: nat) -> bool {
    &&& 1 <= h.num_entries <= 128
    &&& 128 <= h.entry_size <= 4096
    &&& h.entries_lba + spec_gpt_entry_sectors(h, ssz) <= u64::MAX
}

/// Reads and classifies a drive's partition table: the MBR of its boot
/// sector, or, when a protective `0xEE` entry announces GPT, the GUID
/// partition table whose header sits in LBA 1.
///
/// A boot sector without the MBR signature, a GPT without the `EFI PART`
/// signature, and a GPT header with a senseless entry count or entry size all
/// classify as `Unknown`; only a too-small sector size or a failed read is an
/// error.
pub fn partition_table_for_drive<D: BlockDevice>(dev: &D) -> (r: Result<PartitionTable, IoError>)
    ensures
        dev.sector_size_spec() < 512 ==> r == Err::<PartitionTable, IoError>(
            IoError::InvalidCommand,
        ),
        r matches Ok(PartitionTable::MBR(t)) ==> dev.sectors().contains_key(0) && spec_parse_mbr(
            dev.sectors()[0],
        ) == Some(t.entries@) && !spec_has_protective_entry(t.entries@),
        r matches Ok(PartitionTable::GPT(g)) ==> ({
            let h = spec_parse_gpt_header(dev.sectors()[1]);
            &&& dev.sectors().contains_key(0)
            &&& spec_parse_mbr(dev.sectors()[0]) is Some
            &&& spec_has_protective_entry(spec_parse_mbr(dev.sectors()[0])->Some_0)
            &&& dev.sectors().contains_key(1)
            &&& h is Some
            &&& g.entries@.len() == h->Some_0.num_entries
        }),
        r matches Ok(PartitionTable::Unknown) ==> dev.sectors().contains_key(0) && ({
            let s0 = dev.sectors()[0];
            ||| spec_parse_mbr(s0) is None
            ||| (spec_parse_mbr(s0) is Some && spec_has_protective_entry(
                spec_parse_mbr(s0)->Some_0,
            ) && dev.sectors().contains_key(1) && ({
                let h = spec_parse_gpt_header(dev.sectors()[1]);
                h is None || !spec_gpt_header_usable(h->Some_0, dev.sector_size_spec())
            }))
        }),
{
    let ssz = dev.sector_size();
    if ssz < 512 {
        return Err(IoError::InvalidCommand);
    }
    let sector0 = match dev.read_sector(0) {
        Ok(s) => s,
        Err(e) => {
            return Err(e);
        },
    };
    let table = match parse_mbr(&sector0) {
        Some(t) => t,
        None => {
            return Ok(PartitionTable::Unknown);
        },
    };
    let mut has_gpt = false;
    let mut k: usize = 0;
    while k < 4
        invariant
            k <= 4,
            table.entries@.len() == 4,
            has_gpt == exists|i: int| 0 <= i < k && (#[trigger] table.entries@[i]).ptype == 0xEE,
        decreases 4 - k,
    {
        if table.entries[k].ptype == 0xEE {
            has_gpt = true;
        }
        k = k + 1;
    }
    proof {
        assert(has_gpt == spec_has_protective_entry(table.entries@));
    }
    if !has_gpt {
        return Ok(PartitionTable::MBR(table));
    }
    // A protective MBR: the real table is a GPT whose header sits in LBA 1.
    let hdr_sec = match dev.read_sector(1) {
        Ok(s) => s,
        Err(e) => {
            return Err(e);
        },
    };
    let hdr = match parse_gpt_header(&hdr_sec) {
        Some(h) => h,
        None => {
            return Ok(PartitionTable::Unknown);
        },
    };
    if hdr.num_entries == 0 || hdr.num_entries > 128 || hdr.entry_size < 128 || hdr.entry_size
        > 4096 {
        return Ok(PartitionTable::Unknown);
    }
    let num = hdr.num_entries as usize;
    let esize = hdr.entry_size as usize;
    proof {
        assert(num * esize <= 524288) by (nonlinear_arith)
            requires
                0 <= num <= 128,
                0 <= esize <= 4096,
        ;
    }
    let total = num * esize;
    let zs = ssz as usize;
    let nsect = (total + zs - 1) / zs;
    if hdr.entries_lba > u64::MAX - nsect as u64 {
        return Ok(PartitionTable::Unknown);
    }
    proof {
        let t = total as int;
        let z = zs as int;
        vstd::arithmetic::div_mod::lemma_fundamental_div_mod(t + z - 1, z);
        vstd::arithmetic::mul::lemma_mul_is_commutative(z, (t + z - 1) / z);
        assert(nsect as int * z <= t + z - 1);
        assert(nsect as int * z >= t);
        assert(nsect * dev.sector_size_spec() <= usize::MAX);
    }
    let bytes = match read_sectors(dev, hdr.entries_lba, nsect) {
        Ok(b) => b,
        Err(e) => {
            return Err(e);
        },
    };
    let mut entries: Vec<GPTPartitionEntry> = Vec::new();
    let mut k2: usize = 0;
    while k2 < num
        invariant
            k2 <= num,
            num <= 128,
            128 <= esize <= 4096,
            bytes@.len() >= num * esize,
            bytes@.len() <= usize::MAX,
            entries@.len() == k2,
        decreases num - k2,
    {
        proof {
            assert(k2 * esize + esize <= num * esize <= 524288) by (nonlinear_arith)
                requires
                    0 <= k2 < num <= 128,
                    0 <= esize <= 4096,
            ;
        }
        let off = k2 * esize;
        entries.push(
            GPTPartitionEntry {
                first_lba: read_le64(&bytes, off + 32),
                last_lba: read_le64(&bytes, off + 40),
            },
        );
        k2 = k2 + 1;
    }
    Ok(PartitionTable::GPT(GUIDPartitionTable { entries }))
}

/// Whether `ps` records entry `j` of the boot sector's MBR table as an
/// unprobed partition: present under its own index, carrying its own table
/// entry, with no filesystem identified.
pub open spec fn spec_records_unprobed_entry<D: BlockDevice>(
    dev: &D,
    ps: Seq<Partition>,
    j: int,
) -> bool {
    exists|k: int|
        0 <= k < ps.len() && (#[trigger] ps[k]).id == j && ps[k].metadata == PartitionMetadata::MBR(
            spec_parse_mbr(dev.sectors()[0])->Some_0[j],
        ) && ps[k].fs is Unknown
}

/// Enumerates the partitions of a drive: classifies its partition table with
/// [`partition_table_for_drive`], then builds a [`Partition`] from each entry
/// in table order, probing every candidate for ext4.
///
/// A drive whose table classifies as `Unknown` yields no partitions; only a
/// failed read is an error.
pub fn partitions_for_drive<D: BlockDevice>(dev: &D, drive_id: usize) -> (r: Result<
    Vec<Partition>,
    IoError,
>)
    ensures
        r matches Ok(ps) ==> forall|k: int|
            0 <= k < ps@.len() ==> spec_enumerated_ok(dev, #[trigger] ps@[k], drive_id),
        r matches Ok(ps) ==> (ps@.len() > 0 ==> dev.sectors().contains_key(0) && spec_parse_mbr(
            dev.sectors()[0],
        ) is Some),
        // No entry of a plain MBR table is dropped for not being probed: a
        // non-candidate cannot fail, so it is always recorded, as Unknown.
        r matches Ok(ps) ==> ({
            let mbr = spec_parse_mbr(dev.sectors()[0]);
            (dev.sectors().contains_key(0) && mbr is Some && !spec_has_protective_entry(
                mbr->Some_0,
            )) ==> forall|j: int|
                0 <= j < 4 && !spec_is_probe_candidate(
                    PartitionMetadata::MBR(mbr->Some_0[j]),
                ) ==> #[trigger] spec_records_unprobed_entry(dev, ps@, j)
        }),
{
    let table = match partition_table_for_drive(dev) {
        Ok(t) => t,
        Err(e) => {
            return Err(e);
        },
    };
    match table {
        PartitionTable::Unknown => Ok(Vec::new()),
        PartitionTable::MBR(t) => {
            let mut ps: Vec<Partition> = Vec::new();
            let mut j: usize = 0;
            while j < 4
                invariant
                    j <= 4,
                    t.entries@.len() == 4,
                    dev.sectors().contains_key(0),
                    spec_parse_mbr(dev.sectors()[0]) == Some(t.entries@),
                    forall|k: int|
                        0 <= k < ps@.len() ==> spec_enumerated_ok(dev, #[trigger] ps@[k], drive_id),
                    forall|i: int|
                        0 <= i < j && !spec_is_probe_candidate(
                            PartitionMetadata::MBR(t.entries@[i]),
                        ) ==> #[trigger] spec_records_unprobed_entry(dev, ps@, i),
                decreases 4 - j,
            {
                let e = t.entries[j];
                let ghost old_ps = ps@;
                match Partition::from_metadata(j, drive_id, PartitionMetadata::MBR(e), dev) {
                    Some(p) => {
                        let ghost gp = p;
                        ps.push(p);
                        proof {
                            assert forall|i: int|
                                0 <= i < j && !spec_is_probe_candidate(
                                    PartitionMetadata::MBR(t.entries@[i]),
                                ) implies #[trigger] spec_records_unprobed_entry(
                                dev,
                                ps@,
                                i,
                            ) by {
                                assert(spec_records_unprobed_entry(dev, old_ps, i));
                                let k0 = choose|k0: int|
                                    0 <= k0 < old_ps.len() && (#[trigger] old_ps[k0]).id == i
                                        && old_ps[k0].metadata == PartitionMetadata::MBR(
                                        spec_parse_mbr(dev.sectors()[0])->Some_0[i],
                                    ) && old_ps[k0].fs is Unknown;
                                assert(ps@[k0] == old_ps[k0]);
                            }
                            if !spec_is_probe_candidate(PartitionMetadata::MBR(t.entries@[j as int])) {
                                assert(ps@[old_ps.len() as int] == gp);
                                assert(spec_records_unprobed_entry(dev, ps@, j as int));
                            }
                        }
                    },
                    None => {
                        proof {
                            // A non-candidate cannot come back empty, so this
                            // entry was a probed candidate.
                            assert(spec_is_probe_candidate(
                                PartitionMetadata::MBR(t.entries@[j as int]),
                            ));
                        }
                    },
                }
                j = j + 1;
            }
            Ok(ps)
        },
        PartitionTable::GPT(g) => {
            let mut ps: Vec<Partition> = Vec::new();
            let mut j: usize = 0;
            let n = g.entries.len();
            while j < n
                invariant
                    j <= n,
                    n == g.entries@.len(),
                    dev.sectors().contains_key(0),
                    spec_parse_mbr(dev.sectors()[0]) is Some,
                    forall|k: int|
                        0 <= k < ps@.len() ==> spec_enumerated_ok(dev, #[trigger] ps@[k], drive_id),
                decreases n - j,
            {
                let e = g.entries[j];
                match Partition::from_metadata(j, drive_id, PartitionMetadata::GPT(e), dev) {
                    Some(p) => {
                        ps.push(p);
                    },
                    None => {},
                }
                j = j + 1;
            }
            Ok(ps)
        },
    }
}


/// Law: the MBR dispatch is sound — an entry whose type byte is not `0x83`
/// is never a probe candidate, so no such partition is ever handed to the
/// ext4 prober or mounter.
pub proof fn lemma_mbr_dispatch_soundness(e: MBRPartitionEntry)
    requires
        e.ptype != 0x83,
    ensures
        !spec_is_probe_candidate(PartitionMetadata::MBR(e)),
{
}

} // verus!
