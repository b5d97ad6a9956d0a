//! The address space as segments: which queried regions are segments, and
//! which segment holds an address. The regions themselves are queried by the
//! caller, one after the other from address 0.

use vstd::prelude::*;

use super::prot::Prot;

verus! {

/// One queried region of the address space
#[derive(Debug, Clone, Copy, PartialEq, Eq)]
pub struct MemoryRegion {
    /// the region's base address
    pub base: usize,
    /// the region's size
    pub size: usize,
    /// the region is free (not reserved nor committed)
    pub free: bool,
    /// the protection flags the region was allocated with
    pub alloc_protect: u32,
}

/// A segment (page)
#[derive(Debug, Clone, Copy, PartialEq, Eq)]
pub struct Segment {
    /// the base address of the page
    pub base: usize,
    /// the end address of the page
    pub end: usize,
    /// the page's size
    pub size: usize,
    /// the page's protection flag
    pub prot: Prot,
}

/// The region lies inside the address space.
pub open spec fn region_fits(r: MemoryRegion) -> bool {
    r.base + r.size <= usize::MAX
}

/// The segment a used region makes.
pub open spec fn segment_of(r: MemoryRegion) -> Segment {
    Segment {
        base: r.base,
        end: (r.base + r.size) as usize,
        size: r.size,
        prot: Prot::spec_from_flags(r.alloc_protect),
    }
}

/// The segments of the used regions, in order.
pub open spec fn segments_of(regions: Seq<MemoryRegion>) -> Seq<Segment>
    decreases regions.len(),
{
    if regions.len() == 0 {
        Seq::empty()
    } else {
        let rest = segments_of(regions.drop_last());
        if regions.last().free {
            rest
        } else {
            rest.push(segment_of(regions.last()))
        }
    }
}

/// The segment a used region makes.
fn to_segment(r: &MemoryRegion) -> (s: Segment)
    requires
        region_fits(*r),
    ensures
        s == segment_of(*r),
{
    Segment { base: r.base, end: r.base + r.size, size: r.size, prot: Prot::from_flags(r.alloc_protect) }
}

/// Enumerates all the segments in the given regions: each region that is
/// not free, in order.
pub fn enum_segments(regions: &[MemoryRegion]) -> (r: Vec<Segment>)
    requires
        forall|i: int| 0 <= i < regions@.len() ==> region_fits(#[trigger] regions@[i]),
    ensures
        r@ == segments_of(regions@),
{
    let mut out: Vec<Segment> = Vec::new();
    let mut k: usize = 0;
    while k < regions.len()
        invariant
            k <= regions@.len(),
            forall|i: int| 0 <= i < regions@.len() ==> region_fits(#[trigger] regions@[i]),
            out@ == segments_of(regions@.take(k as int)),
        decreases regions@.len() - k,
    {
        assert(regions@.take(k + 1).drop_last() =~= regions@.take(k as int));
        let reg = &regions[k];
        if !reg.free {
            out.push(to_segment(reg));
        }
        k = k + 1;
    }
    assert(regions@.take(k as int) =~= regions@);
    out
}

/// The segment holds `address`.
pub open spec fn holds(s: Segment, address: usize) -> bool {
    s.base <= address < s.end
}

/// Every segment of fitting regions is the segment of one of them: its end
/// lies `size` bytes after its base.
proof fn lemma_segments_span(regions: Seq<MemoryRegion>, i: int)
    requires
        forall|k: int| 0 <= k < regions.len() ==> region_fits(#[trigger] regions[k]),
        0 <= i < segments_of(regions).len(),
    ensures
        segments_of(regions)[i].end == segments_of(regions)[i].base + segments_of(regions)[i].size,
    decreases regions.len(),
{
    let d = regions.drop_last();
    assert forall|k: int| 0 <= k < d.len() implies region_fits(#[trigger] d[k]) by {
        assert(d[k] == regions[k]);
    }
    if i < segments_of(d).len() {
        lemma_segments_span(d, i);
    } else {
        assert(region_fits(regions[regions.len() - 1]));
    }
}

/// A segment of fitting regions holds exactly the addresses from its base
/// up to, and not including, `size` bytes after it; so each segment of
/// non-zero size holds its own base address.
pub proof fn law_segment_holds_span(regions: Seq<MemoryRegion>, i: int, address: usize)
    requires
        forall|k: int| 0 <= k < regions.len() ==> region_fits(#[trigger] regions[k]),
        0 <= i < segments_of(regions).len(),
    ensures
        holds(segments_of(regions)[i], address) <==> (segments_of(regions)[i].base <= address
            && address < segments_of(regions)[i].base + segments_of(regions)[i].size),
        segments_of(regions)[i].size > 0 ==> holds(segments_of(regions)[i], segments_of(regions)[i].base),
{
    lemma_segments_span(regions, i);
}

/// Segments are made of the used regions alone, in order: each region that
/// is not free gives one segment spanning it, with the protection its flags
/// name, and a free region gives none.
pub proof fn law_segments_of_used_regions(regions: Seq<MemoryRegion>, r: MemoryRegion)
    ensures
        segments_of(regions.push(r)) == if r.free {
            segments_of(regions)
        } else {
            segments_of(regions).push(
                Segment {
                    base: r.base,
                    end: (r.base + r.size) as usize,
                    size: r.size,
                    prot: Prot::spec_from_flags(r.alloc_protect),
                },
            )
        },
        segments_of(Seq::<MemoryRegion>::empty()).len() == 0,
{
    assert(regions.push(r).drop_last() =~= regions);
}

/// Finds the first segment of the given regions that holds `address`.
pub fn find_segment(regions: &[MemoryRegion], address: usize) -> (r: Option<Segment>)
    requires
        forall|i: int| 0 <= i < regions@.len() ==> region_fits(#[trigger] regions@[i]),
    ensures
        match r {
            Some(s) => exists|i: int|
                0 <= i < segments_of(regions@).len() && segments_of(regions@)[i] == s && holds(s, address)
                    && forall|j: int| 0 <= j < i ==> !holds(#[trigger] segments_of(regions@)[j], address),
            None => forall|i: int|
                0 <= i < segments_of(regions@).len() ==> !holds(#[trigger] segments_of(regions@)[i], address),
        },
{
    let segs = enum_segments(regions);
    let mut k: usize = 0;
    while k < segs.len()
        invariant
            segs@ == segments_of(regions@),
            k <= segs@.len(),
            forall|j: int| 0 <= j < k ==> !holds(#[trigger] segs@[j], address),
        decreases segs@.len() - k,
    {
        let s = segs[k];
        if s.base <= address && address < s.end {
            assert(segs@[k as int] == s);
            return Some(s);
        }
        k = k + 1;
    }
    None
}

} // verus!
