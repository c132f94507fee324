//! Fixed-width integer readers over byte slices.
use vstd::prelude::*;

verus! {

/// The unsigned 16-bit value of the little-endian pair at `i`.
pub open spec fn le_u16(s: Seq<u8>, i: int) -> int {
    s[i] + 256 * s[i + 1]
}

/// The unsigned 16-bit value of the big-endian pair at `i`.
pub open spec fn be_u16(s: Seq<u8>, i: int) -> int {
    256 * s[i] + s[i + 1]
}

/// The unsigned 32-bit value of the four little-endian bytes at `i`.
pub open spec fn le_u32(s: Seq<u8>, i: int) -> int {
    s[i] + 256 * s[i + 1] + 65536 * s[i + 2] + 16777216 * s[i + 3]
}

/// The unsigned 64-bit value of the eight little-endian bytes at `i`.
pub open spec fn le_u64(s: Seq<u8>, i: int) -> int {
    le_u32(s, i) + 4294967296 * le_u32(s, i + 4)
}

/// Two's-complement reading of an unsigned value of `bits` bits.
pub open spec fn signed(v: int, bits: nat) -> int {
    if v < vstd::arithmetic::power2::pow2((bits - 1) as nat) as int {
        v
    } else {
        v - vstd::arithmetic::power2::pow2(bits) as int
    }
}

/// Reads a big-endian `u16` at `ib`.
pub fn r_u16_be(buf: &[u8], ib: usize) -> (r: u16)
    requires
        buf.len() >= 2,
        ib <= buf.len() - 2,
    ensures
        r == be_u16(buf@, ib as int),
{
    let lo = buf[ib + 1];
    (buf[ib] as u16) * 256 + lo as u16
}

/// Reads a little-endian `u16` at `ib`.
pub fn r_u16_le(buf: &[u8], ib: usize) -> (r: u16)
    requires
        buf.len() >= 2,
        ib <= buf.len() - 2,
    ensures
        r == le_u16(buf@, ib as int),
{
    let hi = buf[ib + 1];
    buf[ib] as u16 + (hi as u16) * 256
}

/// Reads a little-endian `i16` at `ib`.
pub fn r_i16_le(buf: &[u8], ib: usize) -> (r: i16)
    requires
        buf.len() >= 2,
        ib <= buf.len() - 2,
    ensures
        r == signed(le_u16(buf@, ib as int), 16),
{
    let u = r_u16_le(buf, ib);
    proof {
        vstd::arithmetic::power2::lemma2_to64();
    }
    if u < 0x8000 {
        u as i16
    } else {
        (u as i32 - 0x10000) as i16
    }
}

/// Reads a little-endian `u32` at `ib`.
pub fn r_u32_le(buf: &[u8], ib: usize) -> (r: u32)
    requires
        buf.len() >= 4,
        ib <= buf.len() - 4,
    ensures
        r == le_u32(buf@, ib as int),
{
    let b3 = buf[ib + 3];
    buf[ib] as u32 + (buf[ib + 1] as u32) * 256 + (buf[ib + 2] as u32) * 65536 + (b3 as u32)
        * 16777216
}

/// Reads a little-endian `i32` at `ib`.
pub fn r_i32_le(buf: &[u8], ib: usize) -> (r: i32)
    requires
        buf.len() >= 4,
        ib <= buf.len() - 4,
    ensures
        r == signed(le_u32(buf@, ib as int), 32),
{
    let u = r_u32_le(buf, ib);
    proof {
        vstd::arithmetic::power2::lemma2_to64();
    }
    if u < 0x8000_0000 {
        u as i32
    } else {
        (u as i64 - 0x1_0000_0000) as i32
    }
}

/// Reads a little-endian `u64` at `ib`.
pub fn r_u64_le(buf: &[u8], ib: usize) -> (r: u64)
    requires
        buf.len() >= 8,
        ib <= buf.len() - 8,
    ensures
        r == le_u64(buf@, ib as int),
{
    let lo = r_u32_le(buf, ib);
    let hi = r_u32_le(buf, ib + 4);
    lo as u64 + (hi as u64) * 4294967296
}

} // verus!
