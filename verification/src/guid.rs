//! Content, plan and key identifiers, stored in binaries with their first
//! three fields little-endian.
use crate::text::string_from_chars;
use vstd::prelude::*;

verus! {

/// A 128-bit identifier, held as its sixteen bytes in standard (big-endian
/// field) order.
#[derive(Clone, Copy, PartialEq, Eq, Debug)]
pub struct Guid {
    pub bytes: [u8; 16],
}

/// The position in the little-endian form of the byte at position `i` of
/// the standard form: the first field (4 bytes) and the next two fields
/// (2 bytes each) are reversed, the last 8 bytes stay in place.
pub open spec fn le_position(i: int) -> int {
    if i < 4 {
        3 - i
    } else if i < 6 {
        9 - i
    } else if i < 8 {
        13 - i
    } else {
        i
    }
}

/// Swaps a 16-byte identifier between its standard and its little-endian form.
pub open spec fn swap_le_fields(b: Seq<u8>) -> Seq<u8> {
    Seq::new(16, |i: int| b[le_position(i)])
}

/// The upper-case hexadecimal digit for `n < 16`.
pub open spec fn hex_digit(n: int) -> char {
    if n < 10 {
        (48 + n) as char
    } else {
        (55 + n) as char
    }
}

/// The character at position `k` of the hyphenated upper-case text of an
/// identifier with standard-order bytes `b`: 32 hex digits in groups of
/// 8-4-4-4-12, separated by hyphens.
pub open spec fn hyphenated_char(b: Seq<u8>, k: int) -> char {
    if k == 8 || k == 13 || k == 18 || k == 23 {
        '-'
    } else {
        let d = if k < 8 {
            k
        } else if k < 13 {
            k - 1
        } else if k < 18 {
            k - 2
        } else if k < 23 {
            k - 3
        } else {
            k - 4
        };
        if d % 2 == 0 {
            hex_digit(b[d / 2] as int / 16)
        } else {
            hex_digit(b[d / 2] as int % 16)
        }
    }
}

/// The hyphenated upper-case text of an identifier with standard-order bytes `b`.
pub open spec fn hyphenated_upper(b: Seq<u8>) -> Seq<char> {
    Seq::new(36, |k: int| hyphenated_char(b, k))
}

fn hex_char(n: u8) -> (c: char)
    requires
        n < 16,
    ensures
        c == hex_digit(n as int),
{
    if n < 10 {
        (48 + n) as char
    } else {
        (55 + n) as char
    }
}

impl Guid {
    /// The identifier whose little-endian form is `le`.
    pub fn from_bytes_le(le: [u8; 16]) -> (g: Guid)
        ensures
            g.bytes@ == swap_le_fields(le@),
    {
        let bytes = [
            le[3],
            le[2],
            le[1],
            le[0],
            le[5],
            le[4],
            le[7],
            le[6],
            le[8],
            le[9],
            le[10],
            le[11],
            le[12],
            le[13],
            le[14],
            le[15],
        ];
        assert(bytes@ =~= swap_le_fields(le@));
        Guid { bytes }
    }

    /// The little-endian form of the identifier.
    pub fn to_bytes_le(&self) -> (le: [u8; 16])
        ensures
            le@ == swap_le_fields(self.bytes@),
    {
        let b = self.bytes;
        let le = [
            b[3],
            b[2],
            b[1],
            b[0],
            b[5],
            b[4],
            b[7],
            b[6],
            b[8],
            b[9],
            b[10],
            b[11],
            b[12],
            b[13],
            b[14],
            b[15],
        ];
        assert(le@ =~= swap_le_fields(b@));
        le
    }

    /// The hyphenated upper-case text of the identifier, such as
    /// `67E55044-10B1-426F-9247-BB680E5FE0C8`.
    pub fn to_upper_hyphenated(&self) -> (s: String)
        ensures
            s@ == hyphenated_upper(self.bytes@),
    {
        let mut chars: Vec<char> = Vec::new();
        let mut k: usize = 0;
        while k < 36
            invariant
                k <= 36,
                self.bytes@.len() == 16,
                chars@ == hyphenated_upper(self.bytes@).take(k as int),
            decreases 36 - k,
        {
            let c = if k == 8 || k == 13 || k == 18 || k == 23 {
                '-'
            } else {
                let d: usize = if k < 8 {
                    k
                } else if k < 13 {
                    k - 1
                } else if k < 18 {
                    k - 2
                } else if k < 23 {
                    k - 3
                } else {
                    k - 4
                };
                let byte = self.bytes[d / 2];
                if d % 2 == 0 {
                    hex_char(byte / 16)
                } else {
                    hex_char(byte % 16)
                }
            };
            assert(c == hyphenated_char(self.bytes@, k as int));
            chars.push(c);
            assert(chars@ =~= hyphenated_upper(self.bytes@).take(k + 1));
            k = k + 1;
        }
        assert(hyphenated_upper(self.bytes@).take(36) =~= hyphenated_upper(self.bytes@));
        string_from_chars(chars.as_slice())
    }
}

/// Reading an identifier from its little-endian form and writing it back
/// gives the same bytes, and the other way round.
pub proof fn lemma_le_form_round_trip(b: Seq<u8>)
    requires
        b.len() == 16,
    ensures
        swap_le_fields(swap_le_fields(b)) == b,
{
    assert(swap_le_fields(swap_le_fields(b)) =~= b);
}

} // verus!
