//! The ID3 family of tags.

pub mod frame;
pub mod string;
pub mod unsynch;
pub mod v1;
pub mod v2;

use std::cmp::Ordering;
use vstd::prelude::*;
use vstd::std_specs::cmp::PartialOrdSpecImpl;

use crate::util::text::{decimal, push_decimal};

verus! {

/// The version of an ID3 tag. Versions are ordered by their major number,
/// then by their minor number, then by their revision.
#[derive(Clone, Copy, Debug, PartialEq, Eq, Structural, Ord)]
pub struct Version {
    pub major: u8,
    pub minor: u8,
    pub rev: u8,
}

impl Version {
    pub fn new(major: u8, minor: u8, rev: u8) -> (v: Version)
        ensures
            v == (Version { major, minor, rev }),
    {
        Version { major, minor, rev }
    }

    /// The version as text: the major number, then the minor number where
    /// it or the revision is not zero, then the revision where it is not
    /// zero.
    pub open spec fn spec_text(&self) -> Seq<char> {
        decimal(self.major as nat) + if self.minor > 0 || self.rev > 0 {
            seq!['.'] + decimal(self.minor as nat)
        } else {
            Seq::empty()
        } + if self.rev > 0 {
            seq!['.'] + decimal(self.rev as nat)
        } else {
            Seq::empty()
        }
    }

    /// The version as text.
    pub fn to_string(&self) -> (r: String)
        ensures
            r@ == self.spec_text(),
    {
        let mut r: String = String::new();
        push_decimal(&mut r, self.major);
        if self.minor > 0 || self.rev > 0 {
            r.push('.');
            push_decimal(&mut r, self.minor);
        }
        if self.rev > 0 {
            r.push('.');
            push_decimal(&mut r, self.rev);
        }
        assert(r@ =~= self.spec_text());
        r
    }
}

/// How two numbers compare.
pub open spec fn compare(a: u8, b: u8) -> Ordering {
    if a < b {
        Ordering::Less
    } else if a > b {
        Ordering::Greater
    } else {
        Ordering::Equal
    }
}

fn compare_numbers(a: u8, b: u8) -> (r: Ordering)
    ensures
        r == compare(a, b),
{
    if a < b {
        Ordering::Less
    } else if a > b {
        Ordering::Greater
    } else {
        Ordering::Equal
    }
}

impl PartialOrd for Version {
    fn partial_cmp(&self, other: &Self) -> (r: Option<Ordering>) {
        if self.major != other.major {
            Some(compare_numbers(self.major, other.major))
        } else if self.minor != other.minor {
            Some(compare_numbers(self.minor, other.minor))
        } else {
            Some(compare_numbers(self.rev, other.rev))
        }
    }
}

impl PartialOrdSpecImpl for Version {
    open spec fn obeys_partial_cmp_spec() -> bool {
        true
    }

    open spec fn partial_cmp_spec(&self, other: &Self) -> Option<Ordering> {
        if self.major != other.major {
            Some(compare(self.major, other.major))
        } else if self.minor != other.minor {
            Some(compare(self.minor, other.minor))
        } else {
            Some(compare(self.rev, other.rev))
        }
    }
}

} // verus!
