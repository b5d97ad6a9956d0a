//! The version the script host reports, from its package version numbers.

use vstd::prelude::*;

use crate::mem::pattern::str_chars;

verus! {

/// The decimal number a text of ASCII digits spells; `None` where the text
/// is empty or holds anything but digits.
pub open spec fn decimal_value(s: Seq<char>) -> Option<nat>
    decreases s.len(),
{
    if s.len() == 0 {
        None
    } else if !('0' <= s.last() && s.last() <= '9') {
        None
    } else if s.len() == 1 {
        Some(((s.last() as u32) - ('0' as u32)) as nat)
    } else {
        match decimal_value(s.drop_last()) {
            Some(v) => Some(v * 10 + ((s.last() as u32) - ('0' as u32)) as nat),
            None => None,
        }
    }
}

/// Parses a `u16` from its decimal digits: `None` where the text is not a
/// decimal number or the number is past `u16::MAX`.
pub fn str_to_u16(string: &str) -> (r: Option<u16>)
    ensures
        match decimal_value(string@) {
            Some(v) => if v <= u16::MAX {
                r == Some(v as u16)
            } else {
                r is None
            },
            None => r is None,
        },
{
    let chars = str_chars(string);
    if chars.len() == 0 {
        return None;
    }
    let mut value: u32 = 0;
    let mut k: usize = 0;
    while k < chars.len()
        invariant
            chars@ == string@,
            0 < chars@.len(),
            k <= chars@.len(),
            k > 0 ==> decimal_value(chars@.take(k as int)) == Some(value as nat),
            k == 0 ==> value == 0,
            value <= u16::MAX,
        decreases chars@.len() - k,
    {
        let c = chars[k];
        proof {
            assert(chars@.take(k + 1).drop_last() =~= chars@.take(k as int));
            assert(chars@.take(k + 1).last() == c);
        }
        if !('0' <= c && c <= '9') {
            proof {
                lemma_decimal_fails(chars@, k + 1);
            }
            return None;
        }
        let digit = (c as u32) - ('0' as u32);
        let next = value * 10 + digit;
        if next > 0xFFFF {
            proof {
                lemma_decimal_grows(chars@, k + 1);
            }
            return None;
        }
        value = next;
        k = k + 1;
    }
    assert(chars@.take(k as int) =~= chars@);
    Some(value as u16)
}

/// A text whose first `k` characters are not a number is not one.
proof fn lemma_decimal_fails(s: Seq<char>, k: int)
    requires
        0 < k <= s.len(),
        decimal_value(s.take(k)) is None,
    ensures
        decimal_value(s) is None,
    decreases s.len(),
{
    if k < s.len() {
        assert(s.drop_last().take(k) =~= s.take(k));
        lemma_decimal_fails(s.drop_last(), k);
    } else {
        assert(s.take(k) =~= s);
    }
}

/// Appending digits never makes a number smaller.
proof fn lemma_decimal_grows(s: Seq<char>, k: int)
    requires
        0 < k <= s.len(),
        decimal_value(s.take(k)) matches Some(v) && v > u16::MAX,
    ensures
        decimal_value(s) is None || decimal_value(s)->Some_0 > u16::MAX,
    decreases s.len(),
{
    if k < s.len() {
        assert(s.drop_last().take(k) =~= s.take(k));
        lemma_decimal_grows(s.drop_last(), k);
    } else {
        assert(s.take(k) =~= s);
    }
}

/// An error reading the version numbers
#[derive(Debug, Clone, Copy, PartialEq, Eq, Structural)]
pub enum VersionError {
    /// a version number is not a decimal `u16`
    BadNumber,
}

/// The script host's version
#[derive(Debug)]
pub struct Version {
    major: u16,
    minor: u16,
    patch: u16,
    text: String,
}

impl Version {
    /// The major version.
    pub closed spec fn spec_major(&self) -> u16 {
        self.major
    }

    /// The minor version.
    pub closed spec fn spec_minor(&self) -> u16 {
        self.minor
    }

    /// The patch version.
    pub closed spec fn spec_patch(&self) -> u16 {
        self.patch
    }

    /// The full version text.
    pub closed spec fn spec_text(&self) -> Seq<char> {
        self.text@
    }

    /// The version from the package's version numbers and its full version
    /// text; fails where a number is not a decimal `u16`.
    pub fn new(major: &str, minor: &str, patch: &str, full: &str) -> (r: Result<Version, VersionError>)
        ensures
            match (decimal_value(major@), decimal_value(minor@), decimal_value(patch@)) {
                (Some(a), Some(b), Some(c)) => if a <= u16::MAX && b <= u16::MAX && c <= u16::MAX {
                    r matches Ok(v) && v.spec_major() == a && v.spec_minor() == b && v.spec_patch() == c
                        && v.spec_text() == full@
                } else {
                    r == Err::<Version, VersionError>(VersionError::BadNumber)
                },
                _ => r == Err::<Version, VersionError>(VersionError::BadNumber),
            },
    {
        let a = str_to_u16(major);
        let b = str_to_u16(minor);
        let c = str_to_u16(patch);
        match (a, b, c) {
            (Some(a), Some(b), Some(c)) => Ok(Version { major: a, minor: b, patch: c, text: full.to_owned() }),
            _ => Err(VersionError::BadNumber),
        }
    }

    /// The major version.
    pub fn major(&self) -> (r: u16)
        ensures
            r == self.spec_major(),
    {
        self.major
    }

    /// The minor version.
    pub fn minor(&self) -> (r: u16)
        ensures
            r == self.spec_minor(),
    {
        self.minor
    }

    /// The patch version.
    pub fn patch(&self) -> (r: u16)
        ensures
            r == self.spec_patch(),
    {
        self.patch
    }

    /// The version as the script's `repr` shows it: the full version text.
    pub fn repr(&self) -> (r: String)
        ensures
            r@ == self.spec_text(),
    {
        self.text.clone()
    }

    /// The version as the script's `str` shows it: the full version text.
    pub fn str(&self) -> (r: String)
        ensures
            r@ == self.spec_text(),
    {
        self.text.clone()
    }
}

} // verus!
