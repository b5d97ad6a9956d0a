//! Byte storage that remembers the alignment it was created for.

use vstd::prelude::*;

verus! {

/// The largest size a memory layout may have.
pub open spec fn max_layout_size() -> nat {
    isize::MAX as nat
}

/// Errors when making aligned byte storage
#[derive(Debug, Clone, Copy, PartialEq, Eq)]
pub enum AlignedBytesError {
    /// the size and alignment do not form a valid memory layout
    Layout,
}

/// Whether `n` is a power of two.
pub open spec fn is_pow2(n: nat) -> bool
    decreases n,
{
    if n == 1 {
        true
    } else if n == 0 || n % 2 == 1 {
        false
    } else {
        is_pow2(n / 2)
    }
}

/// Whether `size` bytes aligned to `align` form a valid memory layout:
/// the alignment is a power of two and the size, rounded up to it, fits in an `isize`.
pub open spec fn layout_ok(size: nat, align: nat) -> bool {
    &&& is_pow2(align)
    &&& size + align - 1 <= max_layout_size()
}

/// 32 is a power of two.
pub proof fn lemma_pow2_32()
    ensures
        is_pow2(32),
{
    assert(is_pow2(1));
    assert(is_pow2(2));
    assert(is_pow2(4));
    assert(is_pow2(8));
    assert(is_pow2(16));
}

/// Tests whether `n` is a power of two.
pub fn is_power_of_two(n: usize) -> (r: bool)
    ensures
        r == is_pow2(n as nat),
{
    let mut m: usize = n;
    while m != 1 && m != 0 && m % 2 == 0
        invariant
            is_pow2(n as nat) == is_pow2(m as nat),
        decreases m,
    {
        m = m / 2;
    }
    m == 1
}

/// Byte storage created for an alignment. The bytes are kept in order; the
/// alignment is the one the storage was validated against.
#[derive(Debug)]
pub struct AlignedBytes {
    bytes: Vec<u8>,
    align: usize,
}

impl View for AlignedBytes {
    type V = Seq<u8>;

    open spec fn view(&self) -> Seq<u8> {
        self.spec_bytes()
    }
}

impl AlignedBytes {
    /// The stored bytes.
    pub closed spec fn spec_bytes(&self) -> Seq<u8> {
        self.bytes@
    }

    /// The alignment the storage was created for (0 for empty storage).
    pub closed spec fn spec_align(&self) -> nat {
        self.align as nat
    }

    /// Create a new `AlignedBytes` instance from a slice.
    /// Empty data needs no layout and always succeeds; otherwise the size and
    /// alignment must form a valid layout.
    pub fn new(data: &[u8], align: usize) -> (r: Result<AlignedBytes, AlignedBytesError>)
        ensures
            data@.len() == 0 ==> (r matches Ok(a) && a@ == data@ && a.spec_align() == 0),
            data@.len() > 0 ==> (r is Ok <==> layout_ok(data@.len(), align as nat)),
            data@.len() > 0 ==> (r matches Ok(a) ==> a@ == data@ && a.spec_align() == align),
            r matches Err(e) ==> e == AlignedBytesError::Layout,
    {
        if data.len() == 0 {
            return Ok(AlignedBytes { bytes: Vec::new(), align: 0 });
        }
        if !is_power_of_two(align) {
            return Err(AlignedBytesError::Layout);
        }
        let max_size = isize::MAX as usize;
        if align - 1 > max_size || data.len() > max_size - (align - 1) {
            return Err(AlignedBytesError::Layout);
        }
        let bytes = vstd::slice::slice_to_vec(data);
        Ok(AlignedBytes { bytes, align })
    }

    /// Stores bytes already known to form a valid layout with `align`.
    pub(crate) fn from_valid(bytes: Vec<u8>, align: usize) -> (r: AlignedBytes)
        requires
            layout_ok(bytes@.len(), align as nat),
        ensures
            r@ == bytes@,
            r.spec_align() == align,
    {
        AlignedBytes { bytes, align }
    }

    /// The stored bytes.
    pub fn as_slice(&self) -> (r: &[u8])
        ensures
            r@ == self@,
    {
        self.bytes.as_slice()
    }

    /// Number of stored bytes.
    pub fn len(&self) -> (r: usize)
        ensures
            r == self@.len(),
    {
        self.bytes.len()
    }
}

} // verus!
