//! Protocol versions.

use crate::wire::{ascii_chars, decimal, lemma_decimal, push_decimal, text_of};
use std::cmp::Ordering;
use vstd::std_specs::cmp::PartialOrdSpec;
use vstd::prelude::*;

verus! {

/// The version of the protocol: a major and a minor part.
///
/// Versions are ordered by their major part first and their minor part second.
#[derive(Copy, Clone, Debug, Eq, PartialEq, Structural, Ord)]
pub struct Version {
    major: usize,
    minor: usize,
}

impl Version {
    /// Version 1.0 of the protocol.
    pub fn v1_0() -> (v: Version)
        ensures
            v == Version::spec_new(1, 0),
    {
        Version { major: 1, minor: 0 }
    }

    /// The version made of the two given parts, for contracts.
    pub closed spec fn spec_new(major: usize, minor: usize) -> Version {
        Version { major, minor }
    }

    /// The version made of the two given parts.
    #[verifier::when_used_as_spec(spec_new)]
    pub fn new(major: usize, minor: usize) -> (v: Version)
        ensures
            v == Version::spec_new(major, minor),
    {
        Version { major, minor }
    }

    /// The major part, for contracts.
    pub closed spec fn spec_major(&self) -> usize {
        self.major
    }

    /// The minor part, for contracts.
    pub closed spec fn spec_minor(&self) -> usize {
        self.minor
    }

    /// The latest supported version, which is 1.0.
    pub fn latest() -> (v: Version)
        ensures
            v == Version::spec_new(1, 0),
    {
        Version { major: 1, minor: 0 }
    }

    /// The major part of the version.
    #[verifier::when_used_as_spec(spec_major)]
    pub fn major(&self) -> (m: usize)
        ensures
            m == self.spec_major(),
    {
        self.major
    }

    /// The minor part of the version.
    #[verifier::when_used_as_spec(spec_minor)]
    pub fn minor(&self) -> (m: usize)
        ensures
            m == self.spec_minor(),
    {
        self.minor
    }

    /// The version as it is written: the major part, a dot, the minor part,
    /// both as decimal numbers.
    pub open spec fn spec_text(&self) -> Seq<char> {
        ascii_chars(
            decimal(self.spec_major() as nat) + seq!['.' as u8] + decimal(self.spec_minor() as nat),
        )
    }

    /// The version as it is written, such as `1.0`.
    pub fn text(&self) -> (text: String)
        ensures
            text@ == self.spec_text(),
    {
        let mut bytes: Vec<u8> = Vec::new();
        push_decimal(&mut bytes, self.major as u64);
        bytes.push('.' as u8);
        push_decimal(&mut bytes, self.minor as u64);
        proof {
            lemma_decimal(self.major as nat);
            lemma_decimal(self.minor as nat);
            assert(bytes@ =~= decimal(self.major as nat) + seq!['.' as u8] + decimal(
                self.minor as nat,
            ));
        }
        text_of(bytes.as_slice())
    }
}

impl Default for Version {
    /// Version 1.0.
    fn default() -> (v: Version)
        ensures
            v == Version::spec_new(1, 0),
    {
        Version { major: 1, minor: 0 }
    }
}

/// A version is its two parts and nothing else.
pub broadcast proof fn lemma_version_parts(major: usize, minor: usize)
    ensures
        (#[trigger] Version::spec_new(major, minor)).spec_major() == major,
        Version::spec_new(major, minor).spec_minor() == minor,
{
}

/// Versions are in the order of their major parts, and of their minor parts
/// where the major parts are the same. Two versions are the same exactly
/// where neither comes before the other.
pub proof fn lemma_version_order(a: Version, b: Version)
    ensures
        a.partial_cmp_spec(&b) == Some(Ordering::Less) <==> (a.spec_major() < b.spec_major() || (
        a.spec_major() == b.spec_major() && a.spec_minor() < b.spec_minor())),
        a.partial_cmp_spec(&b) == Some(Ordering::Greater) <==> b.partial_cmp_spec(&a) == Some(
            Ordering::Less,
        ),
        a.partial_cmp_spec(&b) == Some(Ordering::Equal) <==> a == b,
{
}

impl PartialOrd for Version {
    /// Compares the major parts, and the minor parts where those are equal.
    fn partial_cmp(&self, other: &Version) -> (r: Option<Ordering>) {
        if self.major < other.major {
            Some(Ordering::Less)
        } else if self.major > other.major {
            Some(Ordering::Greater)
        } else if self.minor < other.minor {
            Some(Ordering::Less)
        } else if self.minor > other.minor {
            Some(Ordering::Greater)
        } else {
            Some(Ordering::Equal)
        }
    }
}

impl vstd::std_specs::cmp::PartialOrdSpecImpl for Version {
    open spec fn obeys_partial_cmp_spec() -> bool {
        true
    }

    open spec fn partial_cmp_spec(&self, other: &Version) -> Option<Ordering> {
        if self.spec_major() < other.spec_major() {
            Some(Ordering::Less)
        } else if self.spec_major() > other.spec_major() {
            Some(Ordering::Greater)
        } else if self.spec_minor() < other.spec_minor() {
            Some(Ordering::Less)
        } else if self.spec_minor() > other.spec_minor() {
            Some(Ordering::Greater)
        } else {
            Some(Ordering::Equal)
        }
    }
}

} // verus!
