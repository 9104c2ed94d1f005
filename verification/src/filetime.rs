//! Microsoft FILETIME stamps: 100-nanosecond intervals since 1601-01-01 UTC.
//! The stamps are turned into nanoseconds since the Unix epoch here; the
//! date-time type that holds them is built from those nanoseconds by the
//! caller.
use crate::le::{le_i64, read_i64_le};
use vstd::prelude::*;

verus! {

/// Number of 100-nanosecond intervals between the FILETIME epoch
/// (1601-01-01) and the Unix epoch (1970-01-01).
pub const FILETIME_TO_UNIX: i64 = 116_444_736_000_000_000;

/// Nanoseconds since the Unix epoch of the FILETIME `filetime`.
pub open spec fn filetime_unix_nanos(filetime: int) -> int {
    (filetime - 116_444_736_000_000_000) * 100
}

/// Converts a FILETIME to nanoseconds since the Unix epoch.
pub fn microsoft_filetime_nanos(filetime: i64) -> (n: i64)
    requires
        i64::MIN <= filetime_unix_nanos(filetime as int) <= i64::MAX,
    ensures
        n == filetime_unix_nanos(filetime as int),
{
    (filetime - FILETIME_TO_UNIX) * 100
}

/// Reads Microsoft FILETIME stamps from binaries.
pub struct Filetime;

impl Filetime {
    /// Number of bytes a FILETIME occupies in a binary.
    pub const SIZE: usize = 8;

    /// The nanoseconds since the Unix epoch of the FILETIME stored
    /// little-endian in `bytes`.
    pub fn parse_unix_nanos(bytes: &[u8]) -> (n: i64)
        requires
            bytes@.len() == 8,
            i64::MIN <= filetime_unix_nanos(le_i64(bytes@, 0)) <= i64::MAX,
        ensures
            n == filetime_unix_nanos(le_i64(bytes@, 0)),
    {
        microsoft_filetime_nanos(read_i64_le(bytes, 0))
    }
}

} // verus!
