//! Choosing what to stream from the command line's input: whether the
//! source is already a content id, which package file to stream, and the
//! URLs it is served from.
use crate::text::{chars_of, string_from_chars};
use vstd::prelude::*;

verus! {

/// `c` is a hexadecimal digit, in either case.
pub open spec fn is_hex_digit(c: char) -> bool {
    ('0' <= c <= '9') || ('a' <= c <= 'f') || ('A' <= c <= 'F')
}

/// `s` is 32 hexadecimal digits in groups of 8-4-4-4-12, separated by
/// hyphens.
pub open spec fn is_hyphenated_uuid(s: Seq<char>) -> bool {
    s.len() == 36 && forall|i: int|
        0 <= i < 36 ==> if i == 8 || i == 13 || i == 18 || i == 23 {
            #[trigger] s[i] == '-'
        } else {
            is_hex_digit(s[i])
        }
}

/// `c` with ASCII upper-case letters turned to lower case.
pub open spec fn lower(c: char) -> char {
    if 'A' <= c <= 'Z' {
        ((c as u32) + 32) as char
    } else {
        c
    }
}

/// The forms that `uuid::Uuid::try_parse` accepts: 32 hexadecimal digits;
/// the hyphenated form; the hyphenated form in braces; or the hyphenated
/// form after the prefix `urn:uuid:`, in any case.
pub open spec fn uuid_parses(text: Seq<char>) -> bool {
    ||| text.len() == 32 && forall|i: int| 0 <= i < 32 ==> is_hex_digit(#[trigger] text[i])
    ||| is_hyphenated_uuid(text)
    ||| text.len() == 38 && text[0] == '{' && text[37] == '}' && is_hyphenated_uuid(
        text.subrange(1, 37),
    )
    ||| text.len() == 45 && Seq::new(9, |i: int| lower(text[i])) == seq![
        'u',
        'r',
        'n',
        ':',
        'u',
        'u',
        'i',
        'd',
        ':',
    ] && is_hyphenated_uuid(text.subrange(9, 45))
}

/// Tests whether `text` is a UUID.
///
/// Calls `uuid::Uuid::try_parse` and reports whether it succeeded; its
/// source accepts exactly the forms that `uuid_parses` states.
#[verifier::external_body]
fn is_uuid_text(text: &str) -> (b: bool)
    ensures
        b == uuid_parses(text@),
{
    uuid::Uuid::try_parse(text).is_ok()
}

/// The source given on the command line is a content id when it parses as
/// a UUID; otherwise it names a product whose content id is looked up.
pub fn source_is_content_id(source: &str) -> (b: bool)
    ensures
        b == uuid_parses(source@),
{
    is_uuid_text(source)
}

/// `s` ends with `suffix`.
pub open spec fn ends_with(s: Seq<char>, suffix: Seq<char>) -> bool {
    s.len() >= suffix.len() && s.subrange(s.len() - suffix.len(), s.len() as int) == suffix
}

/// The characters `.msixvc`.
pub open spec fn msixvc_suffix() -> Seq<char> {
    seq!['.', 'm', 's', 'i', 'x', 'v', 'c']
}

fn chars_end_with(s: &[char], suffix: &[char]) -> (b: bool)
    ensures
        b == ends_with(s@, suffix@),
{
    if s.len() < suffix.len() {
        return false;
    }
    let base = s.len() - suffix.len();
    let mut i: usize = 0;
    while i < suffix.len()
        invariant
            i <= suffix@.len(),
            base + suffix.len() == s.len(),
            base == s@.len() - suffix@.len(),
            forall|j: int| 0 <= j < i ==> s@[base + j] == suffix@[j],
        decreases suffix@.len() - i,
    {
        if s[base + i] != suffix[i] {
            proof {
                assert(s@.subrange(base as int, s@.len() as int)[i as int] != suffix@[i as int]);
            }
            return false;
        }
        i = i + 1;
    }
    assert(s@.subrange(base as int, s@.len() as int) =~= suffix@);
    true
}

/// The index of the first package file whose name ends with `.msixvc`, or
/// `None` when there is none.
pub fn msixvc_package_index(names: &[String]) -> (r: Option<usize>)
    ensures
        match r {
            Some(i) => i < names@.len() && ends_with(names@[i as int]@, msixvc_suffix()) && forall|
                j: int,
            |
                0 <= j < i ==> !ends_with(#[trigger] names@[j]@, msixvc_suffix()),
            None => forall|j: int|
                0 <= j < names@.len() ==> !ends_with(#[trigger] names@[j]@, msixvc_suffix()),
        },
{
    let suffix = ['.', 'm', 's', 'i', 'x', 'v', 'c'];
    assert(suffix@ =~= msixvc_suffix());
    let mut i: usize = 0;
    while i < names.len()
        invariant
            i <= names@.len(),
            suffix@ == msixvc_suffix(),
            forall|j: int| 0 <= j < i ==> !ends_with(#[trigger] names@[j]@, msixvc_suffix()),
        decreases names@.len() - i,
    {
        let name = chars_of(names[i].as_str());
        if chars_end_with(name.as_slice(), suffix.as_slice()) {
            return Some(i);
        }
        i = i + 1;
    }
    None
}

/// The URLs of a package file: each CDN root followed by the file's
/// relative URL.
pub fn cdn_urls(roots: &[String], relative: &str) -> (v: Vec<String>)
    ensures
        v@.len() == roots@.len(),
        forall|i: int| 0 <= i < v@.len() ==> (#[trigger] v@[i])@ == roots@[i]@ + relative@,
{
    let rel = chars_of(relative);
    let mut v: Vec<String> = Vec::new();
    let mut i: usize = 0;
    while i < roots.len()
        invariant
            i <= roots@.len(),
            rel@ == relative@,
            v@.len() == i,
            forall|k: int| 0 <= k < i ==> (#[trigger] v@[k])@ == roots@[k]@ + relative@,
        decreases roots@.len() - i,
    {
        let mut url = chars_of(roots[i].as_str());
        let ghost root = url@;
        let mut j: usize = 0;
        while j < rel.len()
            invariant
                j <= rel@.len(),
                url@ == root + rel@.take(j as int),
            decreases rel@.len() - j,
        {
            url.push(rel[j]);
            assert(url@ =~= root + rel@.take(j + 1));
            j = j + 1;
        }
        assert(rel@.take(rel@.len() as int) =~= rel@);
        v.push(string_from_chars(url.as_slice()));
        i = i + 1;
    }
    v
}

} // verus!
