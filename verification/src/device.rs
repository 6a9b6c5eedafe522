//! The block-device boundary the filesystem core consumes.
//!
//! A device hands out fixed-size disk sectors by LBA. Its model for the
//! contracts is a partial map from sector index to sector bytes: a read that
//! succeeds returns exactly the modelled bytes, and nothing is promised of a
//! read that fails, so every caller must state what holds whatever came back.
//!
//! [`MemBlockDevice`] is a verified in-memory implementation over a contiguous
//! image, used by the tests and by any caller that already holds the bytes.

use vstd::arithmetic::div_mod::lemma_fundamental_div_mod;
use vstd::arithmetic::mul::lemma_mul_inequality;
use vstd::prelude::*;

use crate::errors::IoError;

verus! {

/// A source of fixed-size disk sectors, addressed linearly from the start of
/// the drive.
///
/// Implementations over real hardware poll the controller and may fail on any
/// read; the contract therefore only pins down what a *successful* read
/// returns.
pub trait BlockDevice {
    /// The size of one sector, in bytes.
    spec fn sector_size_spec(&self) -> nat;

    /// The modelled content of the drive: sector index to sector bytes.
    spec fn sectors(&self) -> Map<int, Seq<u8>>;

    /// The size of one sector, in bytes.
    fn sector_size(&self) -> (r: u16)
        ensures
            r as nat == self.sector_size_spec(),
    ;

    /// Reads the sector at `lba`, blocking until the device answers.
    fn read_sector(&self, lba: u64) -> (r: Result<Vec<u8>, IoError>)
        ensures
            r matches Ok(v) ==> self.sectors().contains_key(lba as int) && v@
                == self.sectors().index(lba as int) && v@.len() == self.sector_size_spec(),
    ;
}

/// Whether every sector of `[lba, lba + count)` is present in the model.
pub open spec fn run_defined(m: Map<int, Seq<u8>>, lba: int, count: nat) -> bool {
    forall|k: int| 0 <= k < count ==> #[trigger] m.contains_key(lba + k)
}

/// The bytes of sectors `lba, lba + 1, ..., lba + count - 1`, concatenated.
pub open spec fn sector_run(m: Map<int, Seq<u8>>, lba: int, count: nat) -> Seq<u8>
    decreases count,
{
    if count == 0 {
        Seq::empty()
    } else {
        sector_run(m, lba, (count - 1) as nat) + m[lba + count - 1]
    }
}

/// Reads `count` consecutive sectors starting at `lba` into one buffer, the
/// way the hardware interface reads a multiple of the sector size at once.
pub fn read_sectors<D: BlockDevice>(dev: &D, lba: u64, count: usize) -> (r: Result<
    Vec<u8>,
    IoError,
>)
    requires
        lba + count <= u64::MAX as int + 1,
        count * dev.sector_size_spec() <= usize::MAX,
    ensures
        r matches Ok(v) ==> run_defined(dev.sectors(), lba as int, count as nat) && v@
            == sector_run(dev.sectors(), lba as int, count as nat) && v@.len() == count
            * dev.sector_size_spec(),
{
    let mut out: Vec<u8> = Vec::new();
    let mut i: usize = 0;
    while i < count
        invariant
            i <= count,
            lba + count <= u64::MAX as int + 1,
            count * dev.sector_size_spec() <= usize::MAX,
            run_defined(dev.sectors(), lba as int, i as nat),
            out@ == sector_run(dev.sectors(), lba as int, i as nat),
            out@.len() == i * dev.sector_size_spec(),
        decreases count - i,
    {
        let mut sec = match dev.read_sector(lba + i as u64) {
            Ok(s) => s,
            Err(e) => {
                return Err(e);
            },
        };
        proof {
            assert((i + 1) * dev.sector_size_spec() == i * dev.sector_size_spec()
                + dev.sector_size_spec()) by (nonlinear_arith);
            lemma_mul_inequality(i as int + 1, count as int, dev.sector_size_spec() as int);
        }
        out.append(&mut sec);
        i = i + 1;
        assert(out@ =~= sector_run(dev.sectors(), lba as int, i as nat));
    }
    Ok(out)
}

/// `x` clamped to what a `u64` can hold; physical block arithmetic saturates
/// rather than wrapping.
pub open spec fn sat_u64(x: int) -> u64 {
    if x > u64::MAX {
        u64::MAX as u64
    } else {
        x as u64
    }
}

/// The LBA of filesystem block `blk` of a partition that starts at sector
/// `part_start`, with `spb` sectors per filesystem block.
pub open spec fn spec_block_lba(part_start: int, spb: nat, blk: int) -> int {
    sat_u64(part_start + blk * spb) as int
}

/// The bytes of filesystem block `blk`, as the device model shows them.
pub open spec fn spec_fs_block(
    m: Map<int, Seq<u8>>,
    ssz: nat,
    part_start: int,
    bs: nat,
    blk: int,
) -> Seq<u8> {
    sector_run(m, spec_block_lba(part_start, (bs / ssz) as nat, blk), (bs / ssz) as nat)
}

/// Whether the device model holds every sector of filesystem block `blk`.
pub open spec fn fs_block_defined(
    m: Map<int, Seq<u8>>,
    ssz: nat,
    part_start: int,
    bs: nat,
    blk: int,
) -> bool {
    run_defined(m, spec_block_lba(part_start, (bs / ssz) as nat, blk), (bs / ssz) as nat)
}

/// Reads one filesystem block of `block_size` bytes: block `blk` of the
/// partition that starts at sector `part_start`.
pub fn read_fs_block<D: BlockDevice>(dev: &D, part_start: u64, block_size: u32, blk: u64) -> (r:
    Result<Vec<u8>, IoError>)
    requires
        dev.sector_size_spec() > 0,
        block_size as nat % dev.sector_size_spec() == 0,
        dev.sector_size_spec() <= block_size,
    ensures
        r matches Ok(v) ==> v@ == spec_fs_block(
            dev.sectors(),
            dev.sector_size_spec(),
            part_start as int,
            block_size as nat,
            blk as int,
        ) && v@.len() == block_size && fs_block_defined(
            dev.sectors(),
            dev.sector_size_spec(),
            part_start as int,
            block_size as nat,
            blk as int,
        ),
{
    let ssz = dev.sector_size();
    let spb32 = block_size / (ssz as u32);
    let spb = spb32 as u64;
    proof {
        let bs = block_size as int;
        let sz = dev.sector_size_spec() as int;
        lemma_fundamental_div_mod(bs, sz);
        assert(bs % sz == 0);
        assert(spb as int == bs / sz);
        vstd::arithmetic::mul::lemma_mul_is_commutative(sz, bs / sz);
        assert(spb as int * sz == bs);
    }
    let lba = match blk.checked_mul(spb) {
        Some(p) => match part_start.checked_add(p) {
            Some(l) => l,
            None => u64::MAX,
        },
        None => u64::MAX,
    };
    proof {
        assert(lba as int == spec_block_lba(part_start as int, spb as nat, blk as int));
    }
    let count = spb32 as usize;
    if count as u64 > u64::MAX - lba {
        return Err(IoError::InvalidCommand);
    }
    proof {
        assert(count * dev.sector_size_spec() == block_size);
    }
    match read_sectors(dev, lba, count) {
        Ok(v) => Ok(v),
        Err(e) => Err(e),
    }
}

/// A block device over an in-memory image: sector `k` is the `k`-th
/// `sector_size`-byte slice of `data`, and a read past the image fails with
/// `ShortRead`.
pub struct MemBlockDevice {
    sector_size: u16,
    data: Vec<u8>,
}

impl MemBlockDevice {
    /// Builds a device over `data` with the given sector size.
    pub fn new(sector_size: u16, data: Vec<u8>) -> (r: MemBlockDevice)
        ensures
            r.sector_size_spec() == sector_size as nat,
            r.sectors() == Map::<int, Seq<u8>>::new(
                |i: int|
                    0 <= i && 0 < sector_size && (i + 1) * (sector_size as int) <= data@.len(),
                |i: int| data@.subrange(i * (sector_size as int), (i + 1) * (sector_size as int)),
            ),
    {
        MemBlockDevice { sector_size, data }
    }
}

impl BlockDevice for MemBlockDevice {
    closed spec fn sector_size_spec(&self) -> nat {
        self.sector_size as nat
    }

    closed spec fn sectors(&self) -> Map<int, Seq<u8>> {
        Map::new(
            |i: int|
                0 <= i && 0 < self.sector_size && (i + 1) * (self.sector_size as int)
                    <= self.data@.len(),
            |i: int|
                self.data@.subrange(
                    i * (self.sector_size as int),
                    (i + 1) * (self.sector_size as int),
                ),
        )
    }

    fn sector_size(&self) -> (r: u16) {
        self.sector_size
    }

    fn read_sector(&self, lba: u64) -> (r: Result<Vec<u8>, IoError>)
        // An in-memory device never fails spuriously: a modelled sector is
        // returned, an unmodelled one is refused with the exact error.
        ensures
            self.sector_size_spec() == 0 ==> r == Err::<Vec<u8>, IoError>(IoError::InvalidCommand),
            self.sector_size_spec() > 0 && !self.sectors().contains_key(lba as int) ==> r
                == Err::<Vec<u8>, IoError>(IoError::ShortRead),
            self.sectors().contains_key(lba as int) ==> r is Ok,
    {
        let ss = self.sector_size as usize;
        if ss == 0 {
            return Err(IoError::InvalidCommand);
        }
        let n = self.data.len();
        let full = n / ss;
        if lba >= full as u64 {
            proof {
                lemma_fundamental_div_mod(n as int, ss as int);
                if self.sectors().contains_key(lba as int) {
                    lemma_mul_inequality(full as int + 1, lba as int + 1, ss as int);
                    assert((n as int % (ss as int)) < ss as int);
                    assert((full as int + 1) * (ss as int) == full as int * (ss as int) + ss)
                        by (nonlinear_arith);
                    vstd::arithmetic::mul::lemma_mul_is_commutative(ss as int, full as int);
                    assert(false);
                }
            }
            return Err(IoError::ShortRead);
        }
        proof {
            lemma_fundamental_div_mod(n as int, ss as int);
            lemma_mul_inequality(lba as int + 1, full as int, ss as int);
            assert((lba as int + 1) * (ss as int) == lba as int * (ss as int) + ss)
                by (nonlinear_arith);
            assert(full as int * (ss as int) <= n) by {
                assert(n as int % ss as int >= 0);
                vstd::arithmetic::mul::lemma_mul_is_commutative(ss as int, full as int);
            };
        }
        let start = (lba as usize) * ss;
        let mut out: Vec<u8> = Vec::new();
        let mut j: usize = 0;
        while j < ss
            invariant
                j <= ss,
                start + ss <= self.data@.len(),
                self.data@.len() == n <= usize::MAX,
                out@ == self.data@.subrange(start as int, start + j),
            decreases ss - j,
        {
            out.push(self.data[start + j]);
            j = j + 1;
            assert(out@ =~= self.data@.subrange(start as int, start + j));
        }
        assert(self.sectors().contains_key(lba as int));
        assert(out@ == self.sectors()[lba as int]);
        Ok(out)
    }
}

} // verus!
