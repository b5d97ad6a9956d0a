//! This module allows one to scan memory for specific data

use vstd::prelude::*;

use super::backends::{find, is_first_match, matches_at, no_match};
use super::pattern::{entry_data, entry_mask, padded_data, padded_mask, parse_ida, Pattern};

verus! {

pub use super::scanner::Scan;

/// Single result IDA-style pattern scan.
///
/// Finds the first occurence of the pattern in `region`, the bytes found at
/// address `addr`. Returns `None` if the pattern text is malformed or does
/// not occur.
///
/// # Example
///
/// ```rust,ignore
/// let binary = [0xab, 0xec, 0x48, 0x89, 0x5c, 0x24, 0xee, 0x48, 0x89, 0x6c];
/// let result = sig_scan("48 89 5c 24 ?? 48 89 6c", 0x1000, &binary);
/// ```
pub fn sig_scan(pattern: &str, addr: usize, region: &[u8]) -> (r: Option<Scan>)
    requires
        pattern@.len() + 62 <= super::aligned_bytes::max_layout_size(),
        addr + region@.len() <= usize::MAX,
    ensures
        parse_ida(pattern@) is None ==> r is None,
        parse_ida(pattern@) matches Some(entries) ==> match r {
            Some(s) => addr <= s.addr && is_first_match(
                padded_data(entries),
                padded_mask(entries),
                region@,
                s.addr - addr,
            ),
            None => no_match(padded_data(entries), padded_mask(entries), region@),
        },
{
    let pattern = match Pattern::from_str(pattern) {
        Ok(p) => p,
        Err(_) => return None,
    };
    let r = match find(&pattern, addr, region) {
        Some(a) => Some(Scan { addr: a }),
        None => None,
    };
    r
}

/// Scan for data: finds the first occurence of `data` in `region`, the bytes
/// found at address `addr`.
pub fn data_scan(data: &[u8], addr: usize, region: &[u8]) -> (r: Option<Scan>)
    requires
        data@.len() + 62 <= super::aligned_bytes::max_layout_size(),
        addr + region@.len() <= usize::MAX,
    ensures
        match r {
            Some(s) => addr <= s.addr && s.addr < addr + region@.len() && occurs_at(data@, region@, s.addr - addr)
                && forall|k: int| 0 <= k < s.addr - addr ==> !occurs_at(data@, region@, k),
            None => forall|k: int| 0 <= k < region@.len() ==> !occurs_at(data@, region@, k),
        },
{
    let pattern = Pattern::from_data(data);
    let r = find(&pattern, addr, region);
    proof {
        lemma_exact_pattern(&pattern, data@, region@);
    }
    match r {
        Some(a) => Some(Scan { addr: a }),
        None => None,
    }
}

/// `data` occurs in `hay` starting at offset `i`.
pub open spec fn occurs_at(data: Seq<u8>, hay: Seq<u8>, i: int) -> bool {
    &&& i + data.len() <= hay.len()
    &&& forall|j: int| 0 <= j < data.len() ==> #[trigger] hay[i + j] == data[j]
}

/// A pattern made of exactly the bytes `data` matches where `data` occurs.
proof fn lemma_exact_pattern(p: &Pattern, data: Seq<u8>, hay: Seq<u8>)
    requires
        p.denotes(data.map_values(|b: u8| Some(b))),
    ensures
        forall|i: int|
            #![trigger matches_at(p.data@, p.mask@, hay, i)]
            #![trigger occurs_at(data, hay, i)]
            0 <= i < hay.len() ==> (matches_at(p.data@, p.mask@, hay, i) <==> occurs_at(data, hay, i)),
{
    let entries = data.map_values(|b: u8| Some(b));
    assert forall|i: int| 0 <= i < hay.len() implies (matches_at(p.data@, p.mask@, hay, i) <==> occurs_at(data, hay, i)) by {
        assert forall|j: int| 0 <= j < data.len() implies p.mask@[j] == 0xFF && p.data@[j] == data[j] by {
            assert(entries[j] == Some(data[j]));
            assert(p.mask@[j] == padded_mask(entries)[j]);
            assert(p.data@[j] == padded_data(entries)[j]);
        }
        assert forall|j: int| data.len() <= j < p.data@.len() implies p.mask@[j] == 0 by {
            assert(p.mask@[j] == padded_mask(entries)[j]);
        }
        if matches_at(p.data@, p.mask@, hay, i) {
            if data.len() > 0 {
                let j = data.len() - 1;
                assert(p.mask@[j] == 0xFF);
                assert(i + j < hay.len());
                assert(i + data.len() <= hay.len());
            }
            assert forall|j: int| 0 <= j < data.len() implies #[trigger] hay[i + j] == data[j] by {
                assert(p.mask@[j] != 0);
            }
            assert(occurs_at(data, hay, i));
        }
        if occurs_at(data, hay, i) {
            assert forall|j: int| #![trigger p.mask@[j]] 0 <= j < p.data@.len() && p.mask@[j] != 0 implies i + j < hay.len() && hay[i + j] == p.data@[j] by {
                if j < data.len() {
                    assert(hay[i + j] == data[j]);
                }
            }
            assert(matches_at(p.data@, p.mask@, hay, i));
        }
    }
}

/// The pattern `entries` occurs at offset `i` of `hay`: every fixed byte of
/// it equals the byte of `hay` at its place, and a wildcard matches any byte.
pub open spec fn entries_match_at(entries: Seq<Option<u8>>, hay: Seq<u8>, i: int) -> bool {
    forall|j: int| 0 <= j < entries.len() && (#[trigger] entries[j]) is Some ==> i + j < hay.len() && hay[i + j] == entries[j]->0
}

/// A pattern's stored bytes and mask match at an offset exactly when the
/// pattern's entries occur there: fixed bytes equal, wildcards anything,
/// and the padding matches everything.
pub proof fn law_pattern_matches_entries(entries: Seq<Option<u8>>, hay: Seq<u8>, i: int)
    ensures
        matches_at(padded_data(entries), padded_mask(entries), hay, i) <==> entries_match_at(entries, hay, i),
{
    let data = padded_data(entries);
    let mask = padded_mask(entries);
    if matches_at(data, mask, hay, i) {
        assert forall|j: int| 0 <= j < entries.len() && (#[trigger] entries[j]) is Some implies i + j < hay.len()
            && hay[i + j] == entries[j]->0 by {
            assert(mask[j] == entry_mask(entries[j]));
            assert(data[j] == entry_data(entries[j]));
        }
    }
    if entries_match_at(entries, hay, i) {
        assert forall|j: int| 0 <= j < data.len() && #[trigger] mask[j] != 0 implies i + j < hay.len() && hay[i + j]
            == data[j] by {
            if j < entries.len() {
                assert(mask[j] == entry_mask(entries[j]));
                assert(entries[j] is Some);
            }
        }
    }
}

} // verus!
