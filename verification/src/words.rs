//! Fixed-width integer fields read out of a byte buffer, in either byte
//! order. Every multi-byte field of the container format is specified in
//! terms of these functions.
use vstd::prelude::*;

verus! {

/// The 16-bit value stored at byte offset `i` of `s`, big-endian when
/// `big` is true, little-endian otherwise.
pub open spec fn word16(s: Seq<u8>, i: int, big: bool) -> u16
    recommends
        0 <= i,
        i + 2 <= s.len(),
{
    if big {
        (s[i] * 0x100 + s[i + 1]) as u16
    } else {
        (s[i + 1] * 0x100 + s[i]) as u16
    }
}

/// The 32-bit value stored at byte offset `i` of `s`, in the byte order
/// named by `big`.
pub open spec fn word32(s: Seq<u8>, i: int, big: bool) -> u32
    recommends
        0 <= i,
        i + 4 <= s.len(),
{
    if big {
        (s[i] * 0x1000000 + s[i + 1] * 0x10000 + s[i + 2] * 0x100 + s[i + 3]) as u32
    } else {
        (s[i + 3] * 0x1000000 + s[i + 2] * 0x10000 + s[i + 1] * 0x100 + s[i]) as u32
    }
}

/// The 64-bit value stored at byte offset `i` of `s`, in the byte order
/// named by `big`.
pub open spec fn word64(s: Seq<u8>, i: int, big: bool) -> u64
    recommends
        0 <= i,
        i + 8 <= s.len(),
{
    if big {
        (word32(s, i, true) * 0x100000000 + word32(s, i + 4, true)) as u64
    } else {
        (word32(s, i + 4, false) * 0x100000000 + word32(s, i, false)) as u64
    }
}

pub fn read_u16(s: &[u8], i: usize, big: bool) -> (r: u16)
    requires
        i + 2 <= s@.len(),
    ensures
        r == word16(s@, i as int, big),
{
    let b0 = s[i];
    let b1 = s[i + 1];
    if big {
        (b0 as u16) * 0x100 + (b1 as u16)
    } else {
        (b1 as u16) * 0x100 + (b0 as u16)
    }
}

pub fn read_u32(s: &[u8], i: usize, big: bool) -> (r: u32)
    requires
        i + 4 <= s@.len(),
    ensures
        r == word32(s@, i as int, big),
{
    let b0 = s[i];
    let b1 = s[i + 1];
    let b2 = s[i + 2];
    let b3 = s[i + 3];
    if big {
        (b0 as u32) * 0x1000000 + (b1 as u32) * 0x10000 + (b2 as u32) * 0x100 + (b3 as u32)
    } else {
        (b3 as u32) * 0x1000000 + (b2 as u32) * 0x10000 + (b1 as u32) * 0x100 + (b0 as u32)
    }
}

pub fn read_u64(s: &[u8], i: usize, big: bool) -> (r: u64)
    requires
        i + 8 <= s@.len(),
    ensures
        r == word64(s@, i as int, big),
{
    // The call to len brings the slice's length bound on `i` into scope.
    let n = s.len();
    let lo_off = if big { i + 4 } else { i };
    let hi_off = if big { i } else { i + 4 };
    let hi = read_u32(s, hi_off, big);
    let lo = read_u32(s, lo_off, big);
    (hi as u64) * 0x100000000 + (lo as u64)
}

} // verus!
