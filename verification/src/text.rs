//! Text helpers: characters of strings, UTF-16 names, and decimal digits.
use vstd::prelude::*;

verus! {

/// The characters of `s`, in order.
pub fn chars_of(s: &str) -> (v: Vec<char>)
    ensures
        v@ == s@,
{
    let mut v: Vec<char> = Vec::new();
    for c in it: s.chars()
        invariant
            v@ == it.seq().take(it.index() as int),
    {
        v.push(c);
        assert(v@ =~= it.seq().take(it.index() + 1));
    }
    v
}

/// Appends `c` to `s`.
///
/// Calls `String::push`, whose documentation says that it appends the given
/// character to the end of the string; the contract states exactly that.
#[verifier::external_body]
fn push_char(s: &mut String, c: char)
    ensures
        final(s)@ == old(s)@.push(c),
{
    s.push(c);
}

/// The string made of the characters of `chars`, in order.
pub fn string_from_chars(chars: &[char]) -> (s: String)
    ensures
        s@ == chars@,
{
    let mut s = String::new();
    let mut i: usize = 0;
    while i < chars.len()
        invariant
            i <= chars@.len(),
            s@ == chars@.take(i as int),
        decreases chars@.len() - i,
    {
        push_char(&mut s, chars[i]);
        assert(s@ =~= chars@.take(i + 1));
        i = i + 1;
    }
    assert(chars@.take(chars@.len() as int) =~= chars@);
    s
}

/// The characters that the UTF-16 code units `units` encode, or `None`
/// when they are not valid UTF-16: a unit outside `0xD800..0xE000` stands
/// for itself; a high surrogate (`0xD800..0xDC00`) followed by a low one
/// (`0xDC00..0xE000`) stands for `0x10000 + (hi - 0xD800) * 0x400 +
/// (lo - 0xDC00)`; any other surrogate makes the units invalid.
pub open spec fn utf16_decode(units: Seq<u16>) -> Option<Seq<char>>
    decreases units.len(),
{
    if units.len() == 0 {
        Some(Seq::empty())
    } else {
        let u = units[0];
        if u < 0xD800 || u >= 0xE000 {
            match utf16_decode(units.drop_first()) {
                Some(rest) => Some(seq![u as char] + rest),
                None => None,
            }
        } else if u < 0xDC00 && units.len() >= 2 && 0xDC00 <= units[1] < 0xE000 {
            let c = 0x10000 + (u - 0xD800) * 0x400 + (units[1] - 0xDC00);
            match utf16_decode(units.subrange(2, units.len() as int)) {
                Some(rest) => Some(seq![c as char] + rest),
                None => None,
            }
        } else {
            None
        }
    }
}

/// Decodes UTF-16 code units.
///
/// Calls `String::from_utf16`, which documents that it decodes `units` as
/// UTF-16, returning `Ok` with the decoded string and `Err` when `units`
/// holds invalid data; `utf16_decode` states that decoding.
#[verifier::external_body]
fn string_from_utf16(units: &[u16]) -> (r: Option<String>)
    ensures
        match r {
            Some(s) => utf16_decode(units@) == Some(s@),
            None => utf16_decode(units@) is None,
        },
{
    String::from_utf16(units).ok()
}

/// The number of units before the first NUL unit, or all of them when none
/// is NUL.
pub open spec fn nul_terminated_len(units: Seq<u16>) -> int
    decreases units.len(),
{
    if units.len() == 0 {
        0
    } else if units[0] == 0 {
        0
    } else {
        1 + nul_terminated_len(units.drop_first())
    }
}

/// Finds the position of the first NUL unit, or the length when there is none.
pub fn find_nul(units: &[u16]) -> (n: usize)
    ensures
        n == nul_terminated_len(units@),
        n <= units@.len(),
{
    let mut i: usize = 0;
    assert(units@.skip(0) =~= units@);
    while i < units.len()
        invariant
            i <= units@.len(),
            nul_terminated_len(units@) == i + nul_terminated_len(units@.skip(i as int)),
            forall|j: int| 0 <= j < i ==> units@[j] != 0,
        decreases units@.len() - i,
    {
        assert(units@.skip(i as int).drop_first() =~= units@.skip(i + 1));
        if units[i] == 0 {
            return i;
        }
        i = i + 1;
    }
    assert(units@.skip(i as int) =~= Seq::<u16>::empty());
    i
}

/// Decodes a UTF-16 name that ends at its first NUL unit (or at the end of
/// `units` when there is none).
pub fn decode_nul_terminated_utf16(units: &[u16]) -> (r: Option<String>)
    ensures
        match r {
            Some(s) => utf16_decode(units@.take(nul_terminated_len(units@))) == Some(s@),
            None => utf16_decode(units@.take(nul_terminated_len(units@))) is None,
        },
{
    let end = find_nul(units);
    let name = vstd::slice::slice_subrange(units, 0, end);
    string_from_utf16(name)
}

/// Decodes the first `len` UTF-16 units of `units`.
pub fn decode_utf16_prefix(units: &[u16], len: usize) -> (r: Option<String>)
    requires
        len <= units@.len(),
    ensures
        match r {
            Some(s) => utf16_decode(units@.take(len as int)) == Some(s@),
            None => utf16_decode(units@.take(len as int)) is None,
        },
{
    let name = vstd::slice::slice_subrange(units, 0, len);
    proof {
        assert(name@ =~= units@.take(len as int));
    }
    string_from_utf16(name)
}

/// `c` with ASCII upper-case letters turned to lower case.
pub open spec fn ascii_lower(c: char) -> char {
    if 'A' <= c <= 'Z' {
        ((c as u32) + 32) as char
    } else {
        c
    }
}

/// The characters of `s` end with `suffix`, ignoring ASCII case in `s`
/// (`suffix` is lower case).
pub open spec fn ends_with_lower(s: Seq<char>, suffix: Seq<char>) -> bool {
    s.len() >= suffix.len() && forall|i: int|
        0 <= i < suffix.len() ==> ascii_lower(#[trigger] s[s.len() - suffix.len() + i])
            == suffix[i]
}

/// `s` with every `from` replaced by `to`.
pub open spec fn replace_char(s: Seq<char>, from: char, to: char) -> Seq<char> {
    Seq::new(s.len(), |i: int| if s[i] == from { to } else { s[i] })
}

fn lower_char(c: char) -> (r: char)
    ensures
        r == ascii_lower(c),
{
    if 'A' <= c && c <= 'Z' {
        let u = c as u32 + 32;
        assert(u <= 0x7f);
        char_from_ascii(u)
    } else {
        c
    }
}

/// The character with ASCII code `u`.
fn char_from_ascii(u: u32) -> (c: char)
    requires
        u <= 0x7f,
    ensures
        c == u as char,
{
    (u as u8) as char
}

/// Whether `s` contains `c`.
pub fn contains_char(s: &[char], c: char) -> (r: bool)
    ensures
        r == s@.contains(c),
{
    let mut i: usize = 0;
    while i < s.len()
        invariant
            i <= s@.len(),
            forall|j: int| 0 <= j < i ==> s@[j] != c,
        decreases s@.len() - i,
    {
        if s[i] == c {
            assert(s@[i as int] == c);
            return true;
        }
        i = i + 1;
    }
    false
}

/// Whether `s` ends with the lower-case `suffix`, ignoring ASCII case in `s`.
pub fn ends_with_ignore_ascii_case(s: &[char], suffix: &[char]) -> (r: bool)
    ensures
        r == ends_with_lower(s@, suffix@),
{
    if s.len() < suffix.len() {
        return false;
    }
    let base = s.len() - suffix.len();
    let mut i: usize = 0;
    while i < suffix.len()
        invariant
            i <= suffix@.len(),
            base == s@.len() - suffix@.len(),
            base + suffix.len() == s.len(),
            forall|j: int| 0 <= j < i ==> ascii_lower(#[trigger] s@[base + j]) == suffix@[j],
        decreases suffix@.len() - i,
    {
        if lower_char(s[base + i]) != suffix[i] {
            return false;
        }
        i = i + 1;
    }
    true
}

/// `s` with every `from` replaced by `to`.
pub fn replace_chars(s: &[char], from: char, to: char) -> (r: Vec<char>)
    ensures
        r@ == replace_char(s@, from, to),
{
    let mut r: Vec<char> = Vec::new();
    let mut i: usize = 0;
    while i < s.len()
        invariant
            i <= s@.len(),
            r@ == replace_char(s@, from, to).take(i as int),
        decreases s@.len() - i,
    {
        let c = if s[i] == from {
            to
        } else {
            s[i]
        };
        r.push(c);
        assert(r@ =~= replace_char(s@, from, to).take(i + 1));
        i = i + 1;
    }
    assert(replace_char(s@, from, to).take(s@.len() as int) =~= replace_char(s@, from, to));
    r
}

/// The decimal digit character for `d < 10`.
pub open spec fn digit_char(d: int) -> char {
    (48 + d) as char
}

/// The decimal text of `n`, without leading zeros.
pub open spec fn decimal(n: nat) -> Seq<char>
    decreases n,
{
    if n < 10 {
        seq![digit_char(n as int)]
    } else {
        decimal(n / 10).push(digit_char((n % 10) as int))
    }
}

fn digit(d: u64) -> (c: char)
    requires
        d < 10,
    ensures
        c == digit_char(d as int),
{
    ((48 + d) as u8) as char
}

/// Appends the decimal text of `n` to `out`.
pub fn push_decimal(out: &mut Vec<char>, n: u64)
    ensures
        final(out)@ == old(out)@ + decimal(n as nat),
    decreases n,
{
    if n >= 10 {
        push_decimal(out, n / 10);
    }
    out.push(digit(n % 10));
    proof {
        if n >= 10 {
            assert(final(out)@ =~= old(out)@ + decimal(n as nat));
        } else {
            assert(final(out)@ =~= old(out)@ + decimal(n as nat));
        }
    }
}

} // verus!
