//! Little-endian integer fields inside byte buffers.
use vstd::prelude::*;

verus! {

/// The unsigned value of the two bytes of `s` at `at`, least significant first.
pub open spec fn le_u16(s: Seq<u8>, at: int) -> int {
    s[at] + 256 * s[at + 1]
}

/// The unsigned value of the four bytes of `s` at `at`, least significant first.
pub open spec fn le_u32(s: Seq<u8>, at: int) -> int {
    le_u16(s, at) + 65536 * le_u16(s, at + 2)
}

/// The unsigned value of the eight bytes of `s` at `at`, least significant first.
pub open spec fn le_u64(s: Seq<u8>, at: int) -> int {
    le_u32(s, at) + 4294967296 * le_u32(s, at + 4)
}

/// The two's-complement value of the eight bytes of `s` at `at`, least significant first.
pub open spec fn le_i64(s: Seq<u8>, at: int) -> int {
    if le_u64(s, at) < 0x8000_0000_0000_0000 {
        le_u64(s, at)
    } else {
        le_u64(s, at) - 0x1_0000_0000_0000_0000
    }
}

/// Reads the little-endian `u16` at byte offset `at`.
pub fn read_u16_le(b: &[u8], at: usize) -> (v: u16)
    requires
        at + 2 <= b.len(),
    ensures
        v == le_u16(b@, at as int),
{
    let lo = b[at] as u16;
    let hi = b[at + 1] as u16;
    lo + hi * 256
}

/// Reads the little-endian `u32` at byte offset `at`.
pub fn read_u32_le(b: &[u8], at: usize) -> (v: u32)
    requires
        at + 4 <= b.len(),
    ensures
        v == le_u32(b@, at as int),
{
    let lo = read_u16_le(b, at) as u32;
    let hi = read_u16_le(b, at + 2) as u32;
    lo + hi * 65536
}

/// Reads the little-endian `u64` at byte offset `at`.
pub fn read_u64_le(b: &[u8], at: usize) -> (v: u64)
    requires
        at + 8 <= b.len(),
    ensures
        v == le_u64(b@, at as int),
{
    let lo = read_u32_le(b, at) as u64;
    let hi = read_u32_le(b, at + 4) as u64;
    lo + hi * 4294967296
}

/// Reads the little-endian two's-complement `i64` at byte offset `at`.
pub fn read_i64_le(b: &[u8], at: usize) -> (v: i64)
    requires
        at + 8 <= b.len(),
    ensures
        v == le_i64(b@, at as int),
{
    let u = read_u64_le(b, at);
    if u < 0x8000_0000_0000_0000 {
        u as i64
    } else {
        let m = (u - 0x8000_0000_0000_0000) as i64;
        m - 0x7fff_ffff_ffff_ffff - 1
    }
}

/// Copies `N` bytes of `b` starting at `at` into an array.
pub fn read_array<const N: usize>(b: &[u8], at: usize) -> (a: [u8; N])
    requires
        at + N <= b.len(),
    ensures
        a@ == b@.subrange(at as int, at + N),
{
    let mut a = [0u8; N];
    let mut i: usize = 0;
    while i < N
        invariant
            i <= N,
            at + N <= b.len(),
            a@.len() == N,
            forall|j: int| 0 <= j < i ==> a@[j] == b@[at + j],
        decreases N - i,
    {
        a.set(i, b[at + i]);
        i = i + 1;
    }
    assert(a@ =~= b@.subrange(at as int, at + N));
    a
}

} // verus!
