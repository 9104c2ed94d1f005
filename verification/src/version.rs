//! Four-part version numbers as stored in MSIXVC binaries.
use crate::le::{le_u16, read_u16_le};
use crate::text::{decimal, push_decimal, string_from_chars};
use core::cmp::Ordering;
use vstd::prelude::*;
use vstd::std_specs::cmp::PartialOrdSpecImpl;

verus! {

/// A version number that consists of major, minor, patch, and build components.
#[derive(Clone, Copy, PartialEq, Eq, Structural, Ord, Debug)]
pub struct Version {
    pub major: u16,
    pub minor: u16,
    pub patch: u16,
    pub build: u16,
}

/// `a` comes strictly before `b`: the components are compared in the order
/// major, minor, patch, build, and the first one that differs decides.
pub open spec fn version_lt(a: Version, b: Version) -> bool {
    ||| a.major < b.major
    ||| a.major == b.major && a.minor < b.minor
    ||| a.major == b.major && a.minor == b.minor && a.patch < b.patch
    ||| a.major == b.major && a.minor == b.minor && a.patch == b.patch && a.build < b.build
}

/// The three-way comparison of `a` with `b` under `version_lt`.
pub open spec fn version_order(a: Version, b: Version) -> Ordering {
    if version_lt(a, b) {
        Ordering::Less
    } else if a == b {
        Ordering::Equal
    } else {
        Ordering::Greater
    }
}

/// The version that a binary stores in `bytes`: four little-endian `u16`
/// values in the order build, patch, minor, major.
pub open spec fn version_from_bytes(bytes: Seq<u8>, at: int) -> Version {
    Version {
        build: le_u16(bytes, at) as u16,
        patch: le_u16(bytes, at + 2) as u16,
        minor: le_u16(bytes, at + 4) as u16,
        major: le_u16(bytes, at + 6) as u16,
    }
}

impl Version {
    /// Number of bytes a version occupies in a binary.
    pub const SIZE: usize = 8;

    /// Reads the version stored at byte offset `at` of `bytes`.
    pub fn read_at(bytes: &[u8], at: usize) -> (v: Version)
        requires
            at + 8 <= bytes.len(),
        ensures
            v == version_from_bytes(bytes@, at as int),
    {
        let build = read_u16_le(bytes, at);
        let patch = read_u16_le(bytes, at + 2);
        let minor = read_u16_le(bytes, at + 4);
        let major = read_u16_le(bytes, at + 6);
        Version { major, minor, patch, build }
    }

    /// Parses a version from its eight-byte binary form.
    pub fn parse(bytes: &[u8]) -> (v: Version)
        requires
            bytes@.len() == 8,
        ensures
            v == version_from_bytes(bytes@, 0),
    {
        Self::read_at(bytes, 0)
    }

    /// Compares two versions component by component: major, then minor,
    /// then patch, then build.
    pub fn compare(&self, other: &Version) -> (o: Ordering)
        ensures
            o == version_order(*self, *other),
            self.major == other.major && self.minor == other.minor && self.patch < other.patch
                ==> o == Ordering::Less,
            self.major == other.major && self.minor == other.minor && self.patch > other.patch
                ==> o == Ordering::Greater,
    {
        if self.major != other.major {
            if self.major < other.major { Ordering::Less } else { Ordering::Greater }
        } else if self.minor != other.minor {
            if self.minor < other.minor { Ordering::Less } else { Ordering::Greater }
        } else if self.patch != other.patch {
            if self.patch < other.patch { Ordering::Less } else { Ordering::Greater }
        } else if self.build != other.build {
            if self.build < other.build { Ordering::Less } else { Ordering::Greater }
        } else {
            Ordering::Equal
        }
    }
}

impl PartialOrd for Version {
    fn partial_cmp(&self, other: &Version) -> (o: Option<Ordering>) {
        Some(self.compare(other))
    }
}

impl PartialOrdSpecImpl for Version {
    open spec fn obeys_partial_cmp_spec() -> bool {
        true
    }

    open spec fn partial_cmp_spec(&self, other: &Version) -> Option<Ordering> {
        Some(version_order(*self, *other))
    }
}

/// Comparing versions is an order: it is antisymmetric (swapping the
/// arguments reverses the answer), says `Equal` exactly on equal versions,
/// and is transitive.
pub proof fn lemma_version_order_is_total_order(a: Version, b: Version, c: Version)
    ensures
        version_order(a, b) == Ordering::Less <==> version_order(b, a) == Ordering::Greater,
        version_order(a, b) == Ordering::Equal <==> a == b,
        version_order(a, a) == Ordering::Equal,
        version_lt(a, b) && version_lt(b, c) ==> version_lt(a, c),
        version_lt(a, b) || a == b || version_lt(b, a),
{
}

/// Versions are ordered lexicographically by (major, minor, patch, build):
/// the first component that differs decides, whatever the later ones are.
pub proof fn lemma_version_order_lexicographic(a: Version, b: Version)
    ensures
        a.major < b.major ==> version_order(a, b) == Ordering::Less,
        a.major > b.major ==> version_order(a, b) == Ordering::Greater,
        a.major == b.major && a.minor < b.minor ==> version_order(a, b) == Ordering::Less,
        a.major == b.major && a.minor > b.minor ==> version_order(a, b) == Ordering::Greater,
        a.major == b.major && a.minor == b.minor && a.patch < b.patch ==> version_order(a, b)
            == Ordering::Less,
        a.major == b.major && a.minor == b.minor && a.patch > b.patch ==> version_order(a, b)
            == Ordering::Greater,
        a.major == b.major && a.minor == b.minor && a.patch == b.patch && a.build < b.build
            ==> version_order(a, b) == Ordering::Less,
        a.major == b.major && a.minor == b.minor && a.patch == b.patch && a.build > b.build
            ==> version_order(a, b) == Ordering::Greater,
        a.major == b.major && a.minor == b.minor && a.patch == b.patch && a.build == b.build
            ==> version_order(a, b) == Ordering::Equal,
{
}

/// The text of a version: its four components in decimal, major first,
/// separated by dots.
pub open spec fn version_text(v: Version) -> Seq<char> {
    decimal(v.major as nat) + seq!['.'] + decimal(v.minor as nat) + seq!['.'] + decimal(
        v.patch as nat,
    ) + seq!['.'] + decimal(v.build as nat)
}

impl Version {
    /// The text of the version, such as `1.26.3005.0`.
    pub fn to_version_string(&self) -> (s: String)
        ensures
            s@ == version_text(*self),
    {
        let mut out: Vec<char> = Vec::new();
        push_decimal(&mut out, self.major as u64);
        out.push('.');
        push_decimal(&mut out, self.minor as u64);
        out.push('.');
        push_decimal(&mut out, self.patch as u64);
        out.push('.');
        push_decimal(&mut out, self.build as u64);
        assert(out@ =~= version_text(*self));
        string_from_chars(out.as_slice())
    }
}

} // verus!
