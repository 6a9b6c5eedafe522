//! Little-endian readers over byte vectors.
//!
//! Every on-disk shape this crate consumes (MBR entries, GPT headers, the ext4
//! superblock and extent records) is packed little-endian; these helpers are
//! the single place where integers are read out of raw bytes, each proved
//! equal to its specification.

use vstd::prelude::*;

verus! {

/// The value of the two bytes at `i`, least significant first.
pub open spec fn le16_at(s: Seq<u8>, i: int) -> u16 {
    (s[i] as int + 256 * (s[i + 1] as int)) as u16
}

/// The value of the four bytes at `i`, least significant first.
pub open spec fn le32_at(s: Seq<u8>, i: int) -> u32 {
    (s[i] as int + 256 * (s[i + 1] as int) + 65536 * (s[i + 2] as int) + 16777216 * (s[i + 3] as int))
        as u32
}

/// The value of the eight bytes at `i`, least significant first.
pub open spec fn le64_at(s: Seq<u8>, i: int) -> u64 {
    (le32_at(s, i) as int + 0x1_0000_0000 * (le32_at(s, i + 4) as int)) as u64
}

/// The four bytes that encode `x` little-endian.
pub open spec fn u32_le_bytes(x: u32) -> Seq<u8> {
    seq![
        (x as int % 256) as u8,
        (x as int / 256 % 256) as u8,
        (x as int / 65536 % 256) as u8,
        (x as int / 16777216 % 256) as u8,
    ]
}

/// Reads the little-endian 16-bit value at `i`.
pub fn read_le16(v: &Vec<u8>, i: usize) -> (r: u16)
    requires
        i + 2 <= v@.len(),
    ensures
        r == le16_at(v@, i as int),
{
    let n = v.len();
    assert(i + 2 <= n);
    let b0 = v[i] as u16;
    let b1 = v[i + 1] as u16;
    b0 + b1 * 256
}

/// Reads the little-endian 32-bit value at `i`.
pub fn read_le32(v: &Vec<u8>, i: usize) -> (r: u32)
    requires
        i + 4 <= v@.len(),
    ensures
        r == le32_at(v@, i as int),
{
    let n = v.len();
    assert(i + 4 <= n);
    let b0 = v[i] as u32;
    let b1 = v[i + 1] as u32;
    let b2 = v[i + 2] as u32;
    let b3 = v[i + 3] as u32;
    b0 + b1 * 256 + b2 * 65536 + b3 * 16777216
}

/// Reads the little-endian 64-bit value at `i`.
pub fn read_le64(v: &Vec<u8>, i: usize) -> (r: u64)
    requires
        i + 8 <= v@.len(),
    ensures
        r == le64_at(v@, i as int),
{
    let n = v.len();
    assert(i + 8 <= n);
    let lo = read_le32(v, i) as u64;
    let hi = read_le32(v, i + 4) as u64;
    lo + hi * 0x1_0000_0000
}

/// Appends the four little-endian bytes of `x` to `out`.
pub fn push_le32(out: &mut Vec<u8>, x: u32)
    ensures
        final(out)@ == old(out)@ + u32_le_bytes(x),
{
    out.push((x % 256) as u8);
    out.push((x / 256 % 256) as u8);
    out.push((x / 65536 % 256) as u8);
    out.push((x / 16777216 % 256) as u8);
    assert(out@ =~= old(out)@ + u32_le_bytes(x));
}

} // verus!
