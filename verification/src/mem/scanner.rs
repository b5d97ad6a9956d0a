//! Single result IDA-style pattern scanner.

use vstd::prelude::*;

use super::backends::{find, is_first_match, no_match};
use super::pattern::{parse_ida, Pattern, PatternError};
use crate::render::{hex_chars, push_hex, push_str, string_from_chars};

verus! {

/// Scan result errors
#[derive(Debug, Clone, Copy, PartialEq, Eq)]
pub enum ScanError {
    /// Pattern not found
    NotFound,
}

/// Scanning errors
#[derive(Debug, Clone, Copy, PartialEq, Eq)]
pub enum ScannerError {
    /// An error happened during pattern parsing
    Pattern(PatternError),
}

/// The result of a scan
#[derive(Debug, Clone, Copy, PartialEq, Eq)]
pub struct Scan {
    /// the address of a found match
    pub addr: usize,
}

impl Scan {
    /// The scan result as text: `Scan { addr: 0x<address> }`, the address
    /// in lowercase hexadecimal, as a pointer is shown.
    pub fn to_string(&self) -> (r: String)
        ensures
            r@ == "Scan { addr: 0x"@ + hex_chars(self.addr as nat) + " }"@,
    {
        let mut out: Vec<char> = Vec::new();
        push_str(&mut out, "Scan { addr: 0x");
        push_hex(&mut out, self.addr as u128);
        push_str(&mut out, " }");
        string_from_chars(out.as_slice())
    }
}

/// A pattern scanner that searches for an IDA-style pattern and returns the
/// address of its first occurrence in a region.
#[derive(Debug)]
pub struct Scanner(pub Pattern);

impl Scanner {
    /// Create a new [`Scanner`] instance
    ///
    /// # Example
    ///
    /// ```rust,ignore
    /// let scanner = Scanner::new("48 89 5c 24 ?? 48 89 6c");
    /// ```
    pub fn new(pattern: &str) -> (r: Result<Scanner, ScannerError>)
        requires
            pattern@.len() + 62 <= super::aligned_bytes::max_layout_size(),
        ensures
            r is Ok <==> parse_ida(pattern@) is Some,
            r matches Ok(s) ==> s.0.denotes(parse_ida(pattern@)->0),
            r matches Err(e) ==> e == ScannerError::Pattern(PatternError::Pat),
    {
        match Pattern::from_str(pattern) {
            Ok(p) => Ok(Scanner(p)),
            Err(e) => Err(ScannerError::Pattern(e)),
        }
    }

    /// Find the first occurence of the pattern in `region`, the bytes that
    /// lie at address `ptr`.
    pub fn find(&self, ptr: usize, region: &[u8]) -> (r: Result<Scan, ScanError>)
        requires
            self.0.wf(),
            ptr + region@.len() <= usize::MAX,
        ensures
            r matches Ok(s) ==> ptr <= s.addr && is_first_match(
                self.0.data@,
                self.0.mask@,
                region@,
                s.addr - ptr,
            ),
            r is Err ==> r == Err::<Scan, ScanError>(ScanError::NotFound) && no_match(
                self.0.data@,
                self.0.mask@,
                region@,
            ),
    {
        match find(&self.0, ptr, region) {
            Some(addr) => Ok(Scan { addr }),
            None => Err(ScanError::NotFound),
        }
    }
}

} // verus!
