//! CRC32C (Castagnoli), the cyclic redundancy check ext4 stores in the tail of
//! every non-inline extent block.
//!
//! The specification is the reflected bit-serial definition with polynomial
//! `0x82F63B78`, initial state and final xor `0xFFFF_FFFF`; the executable
//! function is proved to compute exactly that.

use vstd::prelude::*;

verus! {

/// One bit step of the reflected CRC32C feedback register.
pub open spec fn crc32c_step_bit(c: u32) -> u32 {
    if c & 1 == 1 {
        (c >> 1) ^ 0x82F63B78u32
    } else {
        c >> 1
    }
}

/// `n` bit steps applied to `c`.
pub open spec fn crc32c_bits(c: u32, n: nat) -> u32
    decreases n,
{
    if n == 0 {
        c
    } else {
        crc32c_step_bit(crc32c_bits(c, (n - 1) as nat))
    }
}

/// The register after absorbing one byte.
pub open spec fn crc32c_update(c: u32, b: u8) -> u32 {
    crc32c_bits(c ^ (b as u32), 8)
}

/// The register after absorbing every byte of `s`, starting from all ones.
pub open spec fn crc32c_state(s: Seq<u8>) -> u32
    decreases s.len(),
{
    if s.len() == 0 {
        0xFFFF_FFFFu32
    } else {
        crc32c_update(crc32c_state(s.drop_last()), s.last())
    }
}

/// The CRC32C of `s`: the final register, complemented.
pub open spec fn crc32c_of(s: Seq<u8>) -> u32 {
    crc32c_state(s) ^ 0xFFFF_FFFFu32
}

/// Computes the CRC32C of `data`.
pub fn crc32c_calc(data: &Vec<u8>) -> (r: u32)
    ensures
        r == crc32c_of(data@),
{
    let n = data.len();
    let mut c: u32 = 0xFFFF_FFFF;
    let mut i: usize = 0;
    while i < n
        invariant
            i <= n,
            n == data@.len(),
            c == crc32c_state(data@.subrange(0, i as int)),
        decreases n - i,
    {
        c = c ^ (data[i] as u32);
        let ghost c0 = c;
        let mut k: usize = 0;
        while k < 8
            invariant
                k <= 8,
                c == crc32c_bits(c0, k as nat),
            decreases 8 - k,
        {
            if c & 1 == 1 {
                c = (c >> 1) ^ 0x82F63B78;
            } else {
                c = c >> 1;
            }
            k = k + 1;
        }
        proof {
            let pre = data@.subrange(0, i as int);
            let cur = data@.subrange(0, i + 1);
            assert(cur.drop_last() =~= pre);
            assert(cur.last() == data@[i as int]);
        }
        i = i + 1;
    }
    assert(data@.subrange(0, n as int) =~= data@);
    c ^ 0xFFFF_FFFF
}

} // verus!
