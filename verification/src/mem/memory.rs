//! Decisions behind reading, writing, protecting and allocating memory: the
//! checks and address arithmetic, apart from the system calls themselves.

use vstd::prelude::*;
use vstd::string::*;

use super::aligned_bytes::{is_pow2, is_power_of_two};

verus! {

/// An error for the [memory](crate::mem::memory) module
#[derive(Debug, Clone)]
pub enum MemError {
    /// address is invalid
    BadAddress,
    /// a windows error, by its HRESULT code
    Windows(i32),
    /// a win32 error, by its code
    Win32(u32),
    /// adjusted allocation granularity address is not within begin..end range
    GranularityNotWithinLimits,
    /// begin address must be less than end address
    EndGranulatityNotWithinLimits,
    /// align must be 0, or 2 ^ n where n >= 0x10
    IncorrectAlign,
    /// provided address is not within allowed min..max application address limit
    NotWithinAppAddressLimits,
    /// the memory range is already being watched
    Overlaps,
    /// a message
    Custom(String),
}

/// `x` rounded up to a multiple of `g`.
pub open spec fn round_up(x: nat, g: nat) -> nat {
    if x % g == 0 {
        x
    } else {
        (x - x % g + g) as nat
    }
}

/// The alignment asked for is acceptable: zero (the allocation granularity),
/// or a power of two no smaller than the granularity.
pub open spec fn align_ok(align: nat, gran: nat) -> bool {
    align == 0 || (align >= gran && is_pow2(align))
}

/// The unrounded upper limit: one granularity below `end` when there is room,
/// else the rounded lower limit.
pub open spec fn end_base(end: nat, gran: nat, lowest: nat) -> nat {
    if end >= gran {
        (end - gran) as nat
    } else {
        lowest
    }
}

/// The lower limit of an allocation: a null `begin` means no limit, that is
/// the lowest application address.
pub open spec fn begin_limit(begin: nat, min_addr: nat) -> nat {
    if begin == 0 {
        min_addr
    } else {
        begin
    }
}

/// The upper limit of an allocation: a null `end` means no limit, that is the
/// highest application address.
pub open spec fn end_limit(end: nat, max_addr: nat) -> nat {
    if end == 0 {
        max_addr
    } else {
        end
    }
}

/// The inputs on which planning an allocation in `begin..end` overflows the
/// address arithmetic: rounding up past the end of the address space, or an
/// upper limit that rounds to zero.
pub open spec fn alloc_in_overflows(begin0: nat, end0: nat, align: nat, min_addr: nat, max_addr: nat, gran: nat) -> bool {
    let begin = begin_limit(begin0, min_addr);
    let end = end_limit(end0, max_addr);
    let lowest = round_up(begin, gran);
    let high = round_up(end_base(end, gran, lowest), gran);
    begin < end && align_ok(align, gran) && (lowest > usize::MAX || (begin <= lowest < end
        && min_addr <= lowest < max_addr && (high > usize::MAX || high == 0)))
}

/// The address limits for an allocation inside a range
#[derive(Debug, Clone, Copy, PartialEq, Eq)]
pub struct AllocRange {
    /// the lowest starting address allowed
    pub lowest: usize,
    /// the highest ending address allowed
    pub highest: usize,
}

/// `x` rounded up to a multiple of `g`.
fn next_multiple_of(x: usize, g: usize) -> (r: usize)
    requires
        g > 0,
        round_up(x as nat, g as nat) <= usize::MAX,
    ensures
        r == round_up(x as nat, g as nat),
{
    let rem = x % g;
    if rem == 0 {
        x
    } else {
        assert(rem <= x) by (nonlinear_arith)
            requires
                rem == x % g,
                g > 0,
        ;
        let down = x - rem;
        assert(down + g == round_up(x as nat, g as nat));
        down + g
    }
}

/// Plans an allocation somewhere within `begin_addr..end_addr`: validates the
/// range and alignment and computes the address limits to ask the system for.
/// A null `begin_addr` or `end_addr` means there is no limit on that side:
/// the application address limit stands in its place.
///
/// `min_addr..max_addr` is the range of application addresses and
/// `alloc_gran` the allocation granularity of the system. An `align` of 0
/// aligns on the allocation granularity.
pub fn alloc_in(
    begin_addr: usize,
    end_addr: usize,
    align: usize,
    min_addr: usize,
    max_addr: usize,
    alloc_gran: usize,
) -> (r: Result<AllocRange, MemError>)
    requires
        alloc_gran > 0,
        !alloc_in_overflows(begin_addr as nat, end_addr as nat, align as nat, min_addr as nat, max_addr as nat, alloc_gran as nat),
    ensures
        ({
            let b = begin_limit(begin_addr as nat, min_addr as nat);
            let e = end_limit(end_addr as nat, max_addr as nat);
            let g = alloc_gran as nat;
            let lowest = round_up(b, g);
            let highest = round_up(end_base(e, g, lowest), g) - 1;
            if b >= e {
                r matches Err(MemError::Custom(m)) && m@ == "begin address cannot be >= end address"@
            } else if !align_ok(align as nat, g) {
                r matches Err(MemError::IncorrectAlign)
            } else if !(b <= lowest < e) {
                r matches Err(MemError::GranularityNotWithinLimits)
            } else if !(min_addr <= lowest < max_addr) {
                r matches Err(MemError::NotWithinAppAddressLimits)
            } else if !(b <= highest < e) {
                r matches Err(MemError::GranularityNotWithinLimits)
            } else if !(min_addr <= highest < max_addr) {
                r matches Err(MemError::NotWithinAppAddressLimits)
            } else {
                r matches Ok(range) && range.lowest == lowest && range.highest == highest
            }
        }),
{
    let begin_addr = if begin_addr == 0 { min_addr } else { begin_addr };
    let end_addr = if end_addr == 0 { max_addr } else { end_addr };
    if begin_addr >= end_addr {
        return Err(MemError::Custom(String::from_str("begin address cannot be >= end address")));
    }
    if align != 0 && (align < alloc_gran || !is_power_of_two(align)) {
        return Err(MemError::IncorrectAlign);
    }
    let lowest = next_multiple_of(begin_addr, alloc_gran);
    if !(begin_addr <= lowest && lowest < end_addr) {
        return Err(MemError::GranularityNotWithinLimits);
    }
    if !(min_addr <= lowest && lowest < max_addr) {
        return Err(MemError::NotWithinAppAddressLimits);
    }
    let base = if end_addr >= alloc_gran { end_addr - alloc_gran } else { lowest };
    let highest = next_multiple_of(base, alloc_gran) - 1;
    if !(begin_addr <= highest && highest < end_addr) {
        return Err(MemError::GranularityNotWithinLimits);
    }
    if !(min_addr <= highest && highest < max_addr) {
        return Err(MemError::NotWithinAppAddressLimits);
    }
    Ok(AllocRange { lowest, highest })
}

/// The size to use for a protection change or allocation: a size of 0 means
/// one page.
pub fn effective_size(size: usize, page_size: usize) -> (r: usize)
    ensures
        r == if size == 0 { page_size } else { size },
{
    if size == 0 {
        page_size
    } else {
        size
    }
}

/// Checks the arguments of a protection change of `size` bytes at `addr`,
/// giving the size to change: a null address is refused and a size of 0
/// means one page.
pub fn prot_request(addr: usize, size: usize, page_size: usize) -> (r: Result<usize, MemError>)
    ensures
        addr == 0 ==> r matches Err(MemError::BadAddress),
        addr != 0 ==> r == Ok::<usize, MemError>(if size == 0 { page_size } else { size }),
{
    if addr == 0 {
        return Err(MemError::BadAddress);
    }
    Ok(effective_size(size, page_size))
}

/// One step of a deep pointer walk: `offset` pointer widths past the pointer
/// `v` that was read (wrapping around the address space).
pub open spec fn next_addr(v: usize, offset: usize) -> usize {
    vstd::wrapping::usize_specs::wrapping_add(v, vstd::wrapping::usize_specs::wrapping_mul(offset, 8))
}

/// The addresses visited by a deep pointer walk: starting at `base`, each step
/// reads the pointer stored at the current address and moves `offset` pointer
/// widths past it (wrapping around the address space).
pub open spec fn deep_chain(base: nat, offsets: Seq<usize>, reads: Seq<usize>) -> nat
    decreases offsets.len(),
{
    if offsets.len() == 0 || reads.len() == 0 {
        base
    } else {
        deep_chain(next_addr(reads[0], offsets[0]) as nat, offsets.drop_first(), reads.drop_first())
    }
}

/// Calculates a deep pointer address by applying a series of offsets to a
/// base address and dereferencing intermediate pointers: for each offset the
/// pointer at the current address is read with `read` and the offset, in
/// units of pointer width, is added to it.
pub fn deep_pointer<F: Fn(usize) -> usize>(base: usize, offsets: &[usize], read: F) -> (r: Result<usize, MemError>)
    requires
        forall|a: usize| #[trigger] read.requires((a,)),
    ensures
        (base == 0 || offsets@.len() == 0) ==> r matches Err(MemError::BadAddress),
        (base != 0 && offsets@.len() > 0) ==> (r matches Ok(p) && exists|reads: Seq<usize>|
            reads.len() == offsets@.len() && deep_chain(base as nat, offsets@, reads) == p
                && #[trigger] reads_follow(read, base as nat, offsets@, reads)),
{
    if base == 0 || offsets.len() == 0 {
        return Err(MemError::BadAddress);
    }
    let mut addr = base;
    let mut i: usize = 0;
    let ghost mut reads: Seq<usize> = Seq::empty();
    while i < offsets.len()
        invariant
            forall|a: usize| #[trigger] read.requires((a,)),
            i <= offsets@.len(),
            reads.len() == i,
            reads_follow(read, base as nat, offsets@.take(i as int), reads),
            deep_chain(base as nat, offsets@.take(i as int), reads) == addr,
            base != 0,
        decreases offsets@.len() - i,
    {
        let v = read(addr);
        let step = offsets[i].wrapping_mul(8);
        let next = v.wrapping_add(step);
        proof {
            lemma_chain_extend(read, base as nat, offsets@.take(i as int), reads, offsets[i as int], v);
            assert(offsets@.take(i + 1) =~= offsets@.take(i as int).push(offsets[i as int]));
            reads = reads.push(v);
        }
        addr = next;
        i = i + 1;
    }
    proof {
        assert(offsets@.take(i as int) =~= offsets@);
    }
    Ok(addr)
}

/// Each value in `reads` is a value `read` may give for the address the walk
/// had reached.
pub open spec fn reads_follow<F: Fn(usize) -> usize>(read: F, base: nat, offsets: Seq<usize>, reads: Seq<usize>) -> bool {
    forall|k: int|
        0 <= k < reads.len() ==> read.ensures(
            (deep_chain(base, offsets.take(k), reads.take(k)) as usize,),
            #[trigger] reads[k],
        )
}

proof fn lemma_chain_last(base: nat, offsets: Seq<usize>, reads: Seq<usize>, off: usize, v: usize)
    requires
        offsets.len() == reads.len(),
    ensures
        deep_chain(base, offsets.push(off), reads.push(v)) == next_addr(v, off) as nat,
    decreases offsets.len(),
{
    if offsets.len() == 0 {
        assert(offsets.push(off).drop_first() =~= Seq::<usize>::empty());
        assert(reads.push(v).drop_first() =~= Seq::<usize>::empty());
        assert(offsets.push(off)[0] == off);
        assert(reads.push(v)[0] == v);
        assert(deep_chain(next_addr(v, off) as nat, Seq::<usize>::empty(), Seq::<usize>::empty()) == next_addr(v, off) as nat);
    } else {
        assert(offsets.push(off).drop_first() =~= offsets.drop_first().push(off));
        assert(reads.push(v).drop_first() =~= reads.drop_first().push(v));
        assert(offsets.push(off)[0] == offsets[0]);
        assert(reads.push(v)[0] == reads[0]);
        lemma_chain_last(next_addr(reads[0], offsets[0]) as nat, offsets.drop_first(), reads.drop_first(), off, v);
    }
}

proof fn lemma_chain_extend<F: Fn(usize) -> usize>(read: F, base: nat, offsets: Seq<usize>, reads: Seq<usize>, off: usize, v: usize)
    requires
        offsets.len() == reads.len(),
        reads_follow(read, base, offsets, reads),
        read.ensures((deep_chain(base, offsets, reads) as usize,), v),
    ensures
        reads_follow(read, base, offsets.push(off), reads.push(v)),
        deep_chain(base, offsets.push(off), reads.push(v)) == next_addr(v, off) as nat,
{
    lemma_chain_last(base, offsets, reads, off, v);
    let o2 = offsets.push(off);
    let r2 = reads.push(v);
    assert forall|k: int| 0 <= k < r2.len() implies read.ensures(
            (deep_chain(base, o2.take(k), r2.take(k)) as usize,),
            #[trigger] r2[k],
        ) by {
        if k < reads.len() {
            assert(o2.take(k) =~= offsets.take(k));
            assert(r2.take(k) =~= reads.take(k));
            assert(reads[k] == r2[k]);
        } else {
            assert(o2.take(k) =~= offsets);
            assert(r2.take(k) =~= reads);
        }
    }
}

} // verus!
