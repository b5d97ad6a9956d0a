//! Pattern search over a region of memory.

use vstd::prelude::*;

use super::pattern::Pattern;

verus! {

/// Whether the pattern `(data, mask)` matches the region `hay` at offset `i`:
/// every byte the mask fixes lies inside the region and equals the pattern byte.
pub open spec fn matches_at(data: Seq<u8>, mask: Seq<u8>, hay: Seq<u8>, i: int) -> bool {
    forall|j: int|
        #![trigger mask[j]]
        0 <= j < data.len() && mask[j] != 0 ==> i + j < hay.len() && hay[i + j] == data[j]
}

/// Whether `off` is the first offset of the region at which the pattern matches.
pub open spec fn is_first_match(data: Seq<u8>, mask: Seq<u8>, hay: Seq<u8>, off: int) -> bool {
    &&& 0 <= off < hay.len()
    &&& matches_at(data, mask, hay, off)
    &&& forall|k: int| 0 <= k < off ==> !matches_at(data, mask, hay, k)
}

/// The pattern matches nowhere in the region.
pub open spec fn no_match(data: Seq<u8>, mask: Seq<u8>, hay: Seq<u8>) -> bool {
    forall|k: int| 0 <= k < hay.len() ==> !matches_at(data, mask, hay, k)
}

/// Whether the pattern matches at offset `off` of the region.
fn matches_here(pattern: &Pattern, hay: &[u8], off: usize) -> (r: bool)
    requires
        pattern.wf(),
        off < hay@.len(),
    ensures
        r == matches_at(pattern.data@, pattern.mask@, hay@, off as int),
{
    let data = pattern.data.as_slice();
    let mask = pattern.mask.as_slice();
    let mut j: usize = 0;
    while j < data.len()
        invariant
            data@ == pattern.data@,
            mask@ == pattern.mask@,
            data@.len() == mask@.len(),
            off < hay@.len(),
            j <= data@.len(),
            forall|k: int|
                #![trigger mask@[k]]
                0 <= k < j && mask@[k] != 0 ==> off + k < hay@.len() && hay@[off + k] == data@[k],
        decreases data@.len() - j,
    {
        if mask[j] != 0 {
            if j >= hay.len() - off {
                return false;
            }
            if hay[off + j] != data[j] {
                return false;
            }
        }
        j = j + 1;
    }
    true
}

/// Find the first offset in `hay` at which the pattern matches.
///
/// A byte the mask fixes must lie inside the region; wildcards past its end
/// are allowed.
pub fn find_offset(pattern: &Pattern, hay: &[u8]) -> (r: Option<usize>)
    requires
        pattern.wf(),
    ensures
        r matches Some(off) ==> is_first_match(pattern.data@, pattern.mask@, hay@, off as int),
        r is None ==> no_match(pattern.data@, pattern.mask@, hay@),
{
    let mut off: usize = 0;
    while off < hay.len()
        invariant
            pattern.wf(),
            off <= hay@.len(),
            forall|k: int| 0 <= k < off ==> !matches_at(pattern.data@, pattern.mask@, hay@, k),
        decreases hay@.len() - off,
    {
        if matches_here(pattern, hay, off) {
            return Some(off);
        }
        off = off + 1;
    }
    None
}

/// Find the first occurrence of the pattern in the region `hay`, which lies at
/// address `base`; returns the address of the match.
pub fn find(pattern: &Pattern, base: usize, hay: &[u8]) -> (r: Option<usize>)
    requires
        pattern.wf(),
        base + hay@.len() <= usize::MAX,
    ensures
        r matches Some(addr) ==> base <= addr && is_first_match(
            pattern.data@,
            pattern.mask@,
            hay@,
            addr - base,
        ),
        r is None ==> no_match(pattern.data@, pattern.mask@, hay@),
{
    match find_offset(pattern, hay) {
        Some(off) => Some(base + off),
        None => None,
    }
}

} // verus!
