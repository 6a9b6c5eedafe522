//! The ext4 superblock reader and the volume handle built on it.
//!
//! The superblock sits 1024 bytes into the partition and is 1024 bytes long.
//! The extent-tree core needs exactly four things from it: the magic that
//! identifies ext4, the filesystem UUID, the block size, and the
//! incompatible-feature bitset that gates the extents feature.

use vstd::prelude::*;

use crate::bytes::{le16_at, le32_at, read_le16, read_le32};
use crate::device::{sector_run, BlockDevice};
use crate::errors::{Ext4Error, IoError};

verus! {

/// Byte offset of the superblock within its partition, and its length.
pub const SUPERBLOCK_OFFSET: u64 = 1024;

/// The magic value of an ext4 superblock.
pub const EXT4_SUPER_MAGIC: u16 = 0xEF53;

/// The incompatible-feature bit that declares the extents feature.
pub const FEATURE_INCOMPAT_EXTENTS: u32 = 0x40;

/// The mathematical content of a parsed superblock.
pub struct SbModel {
    pub block_size: u32,
    pub uuid: Seq<u8>,
    pub feature_incompat: u32,
}

/// What the core keeps of an ext4 superblock.
pub struct Superblock {
    /// Size of one filesystem block, in bytes.
    pub block_size: u32,
    /// The 16-byte filesystem UUID, first ingredient of every extent-block
    /// checksum.
    pub uuid: Vec<u8>,
    /// The incompatible-feature bitset.
    pub feature_incompat: u32,
}

impl View for Superblock {
    type V = SbModel;

    open spec fn view(&self) -> SbModel {
        SbModel { block_size: self.block_size, uuid: self.uuid@, feature_incompat: self.feature_incompat }
    }
}

/// The block sizes ext4 allows.
pub open spec fn is_valid_block_size(bs: u32) -> bool {
    bs == 1024 || bs == 2048 || bs == 4096 || bs == 8192 || bs == 16384 || bs == 32768 || bs
        == 65536
}

impl Superblock {
    /// A well-formed superblock: a full UUID and a legal block size.
    pub open spec fn wf(&self) -> bool {
        self.uuid@.len() == 16 && is_valid_block_size(self.block_size)
    }

    /// Whether the filesystem declares the extents feature.
    pub fn has_extents_feature(&self) -> (r: bool)
        ensures
            r == (self@.feature_incompat & FEATURE_INCOMPAT_EXTENTS != 0),
    {
        self.feature_incompat & FEATURE_INCOMPAT_EXTENTS != 0
    }
}

/// What parsing the 1024 superblock bytes yields: the magic is checked first,
/// then the block-size exponent, and the three fields the core needs are read
/// out.
pub open spec fn spec_parse_superblock(b: Seq<u8>) -> Result<SbModel, Ext4Error> {
    if le16_at(b, 56) != EXT4_SUPER_MAGIC {
        Err(Ext4Error::CorruptMetadata)
    } else if le32_at(b, 24) > 6 {
        Err(Ext4Error::UnsupportedFeature)
    } else {
        Ok(
            SbModel {
                block_size: spec_block_size_of_log(le32_at(b, 24)),
                uuid: b.subrange(104, 120),
                feature_incompat: le32_at(b, 96),
            },
        )
    }
}

/// `1024 * 2^log`, for the exponents ext4 allows.
pub open spec fn spec_block_size_of_log(log: u32) -> u32 {
    if log == 0 {
        1024
    } else if log == 1 {
        2048
    } else if log == 2 {
        4096
    } else if log == 3 {
        8192
    } else if log == 4 {
        16384
    } else if log == 5 {
        32768
    } else {
        65536
    }
}

/// Parses the superblock out of its 1024 on-disk bytes.
pub fn parse_superblock(bytes: &Vec<u8>) -> (r: Result<Superblock, Ext4Error>)
    requires
        bytes@.len() >= 1024,
    ensures
        match (r, spec_parse_superblock(bytes@)) {
            (Ok(sb), Ok(m)) => sb@ == m && sb.wf(),
            (Err(e), Err(f)) => e == f,
            _ => false,
        },
{
    let magic = read_le16(bytes, 56);
    if magic != EXT4_SUPER_MAGIC {
        return Err(Ext4Error::CorruptMetadata);
    }
    let log = read_le32(bytes, 24);
    if log > 6 {
        return Err(Ext4Error::UnsupportedFeature);
    }
    let block_size: u32 = if log == 0 {
        1024
    } else if log == 1 {
        2048
    } else if log == 2 {
        4096
    } else if log == 3 {
        8192
    } else if log == 4 {
        16384
    } else if log == 5 {
        32768
    } else {
        65536
    };
    let mut uuid: Vec<u8> = Vec::new();
    let mut i: usize = 0;
    while i < 16
        invariant
            i <= 16,
            bytes@.len() >= 1024,
            uuid@ == bytes@.subrange(104, 104 + i),
        decreases 16 - i,
    {
        let n = bytes.len();
        assert(104 + i < n);
        uuid.push(bytes[104 + i]);
        i = i + 1;
        assert(uuid@ =~= bytes@.subrange(104, 104 + i));
    }
    let feature_incompat = read_le32(bytes, 96);
    Ok(Superblock { block_size, uuid, feature_incompat })
}

/// The 1024 superblock bytes as the device model shows them, for a partition
/// that starts at sector `start`: either whole sectors when the sector size
/// divides 1024, or a slice of the single sector that contains them.
pub open spec fn spec_sb_bytes(m: Map<int, Seq<u8>>, ssz: nat, start: int) -> Seq<u8> {
    if 0 < ssz <= 1024 && 1024int % (ssz as int) == 0 {
        sector_run(m, start + 1024int / (ssz as int), (1024int / (ssz as int)) as nat)
    } else {
        sector_run(m, start, 1).subrange(1024, 2048)
    }
}

/// Reads the 1024 superblock bytes of the partition that starts at `start_lba`.
pub fn read_superblock_bytes<D: BlockDevice>(dev: &D, start_lba: u64) -> (r: Result<
    Vec<u8>,
    IoError,
>)
    ensures
        r matches Ok(v) ==> v@ == spec_sb_bytes(dev.sectors(), dev.sector_size_spec(), start_lba as int)
            && v@.len() == 1024,
        // A sector size that neither divides 1024 nor holds the whole
        // superblock region in one sector is refused before any read.
        !(0 < dev.sector_size_spec() <= 1024 && 1024int % (dev.sector_size_spec() as int) == 0)
            && dev.sector_size_spec() < 2048 ==> r == Err::<Vec<u8>, IoError>(
            IoError::InvalidCommand,
        ),
{
    let ssz = dev.sector_size();
    if 0 < ssz && ssz <= 1024 && 1024 % ssz == 0 {
        let count = (1024 / ssz) as usize;
        let first = match start_lba.checked_add((1024 / ssz) as u64) {
            Some(f) => f,
            None => {
                return Err(IoError::InvalidCommand);
            },
        };
        if first > u64::MAX - count as u64 {
            return Err(IoError::InvalidCommand);
        }
        proof {
            assert(count * dev.sector_size_spec() == 1024) by (nonlinear_arith)
                requires
                    count == 1024 as int / dev.sector_size_spec() as int,
                    0 < dev.sector_size_spec() <= 1024,
                    1024 as int % dev.sector_size_spec() as int == 0,
            ;
        }
        let v = match crate::device::read_sectors(dev, first, count) {
            Ok(v) => v,
            Err(e) => {
                return Err(e);
            },
        };
        Ok(v)
    } else if ssz >= 2048 {
        let sec = match dev.read_sector(start_lba) {
            Ok(s) => s,
            Err(e) => {
                return Err(e);
            },
        };
        let mut out: Vec<u8> = Vec::new();
        let mut i: usize = 0;
        while i < 1024
            invariant
                i <= 1024,
                sec@.len() >= 2048,
                out@ == sec@.subrange(1024, 1024 + i),
            decreases 1024 - i,
        {
            let n = sec.len();
            assert(1024 + i < n);
            out.push(sec[1024 + i]);
            i = i + 1;
            assert(out@ =~= sec@.subrange(1024, 1024 + i));
        }
        assert(out@ == spec_sb_bytes(dev.sectors(), dev.sector_size_spec(), start_lba as int)) by {
            reveal_with_fuel(sector_run, 2);
            assert(sector_run(dev.sectors(), start_lba as int, 1) =~= dev.sectors()[
                start_lba as int]);
        };
        Ok(out)
    } else {
        Err(IoError::InvalidCommand)
    }
}

/// A mounted ext4 volume: where it starts on the drive and what its
/// superblock said.
pub struct Ext4Volume {
    pub drive_id: usize,
    pub part_id: usize,
    pub start_lba: u64,
    pub superblock: Superblock,
}

impl Ext4Volume {
    /// A volume is well formed when its superblock is.
    pub open spec fn wf(&self) -> bool {
        self.superblock.wf()
    }

    /// Probes the partition that starts at `start_lba` for an ext4 superblock
    /// magic. A probe that fails the magic returns false without side effects.
    pub fn identify<D: BlockDevice>(dev: &D, start_lba: u64) -> (r: Result<bool, IoError>)
        ensures
            r matches Ok(b) ==> b == (le16_at(
                spec_sb_bytes(dev.sectors(), dev.sector_size_spec(), start_lba as int),
                56,
            ) == EXT4_SUPER_MAGIC),
    {
        let bytes = match read_superblock_bytes(dev, start_lba) {
            Ok(v) => v,
            Err(e) => {
                return Err(e);
            },
        };
        let magic = read_le16(&bytes, 56);
        Ok(magic == EXT4_SUPER_MAGIC)
    }

    /// Mounts the partition that starts at `start_lba`: reads and parses its
    /// superblock and builds the volume handle.
    pub fn mount<D: BlockDevice>(dev: &D, drive_id: usize, part_id: usize, start_lba: u64) -> (r:
        Result<Ext4Volume, Ext4Error>)
        ensures
            r matches Ok(v) ==> spec_parse_superblock(
                spec_sb_bytes(dev.sectors(), dev.sector_size_spec(), start_lba as int),
            ) matches Ok(m) && v.superblock@ == m && v.wf() && v.start_lba == start_lba
                && v.drive_id == drive_id && v.part_id == part_id,
            r matches Err(e) ==> e matches Ext4Error::Io(_) || spec_parse_superblock(
                spec_sb_bytes(dev.sectors(), dev.sector_size_spec(), start_lba as int),
            ) == Err::<SbModel, Ext4Error>(e),
            spec_parse_superblock(
                spec_sb_bytes(dev.sectors(), dev.sector_size_spec(), start_lba as int),
            ) is Err ==> r is Err,
    {
        let bytes = match read_superblock_bytes(dev, start_lba) {
            Ok(v) => v,
            Err(e) => {
                return Err(Ext4Error::Io(e));
            },
        };
        let sb = match parse_superblock(&bytes) {
            Ok(sb) => sb,
            Err(e) => {
                return Err(e);
            },
        };
        Ok(Ext4Volume { drive_id, part_id, start_lba, superblock: sb })
    }
}

} // verus!
