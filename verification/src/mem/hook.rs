//! Jump encoding for detouring code, and the layout of trampolines.

use arrayvec::ArrayVec;
use vstd::prelude::*;

use crate::le::{le_bytes, le_value, lemma_le_bytes_len, lemma_le_roundtrip, lemma_pow256_values, push_le};
use super::disasm::{code_len, walk_len, AsmError};
use super::memory::MemError;
use crate::render::{dec_chars, hex_chars, push_dec, push_hex_padded, push_str, string_from_chars, zero_padded};

verus! {

/// Declares the outside fixed-capacity vector type.
#[verifier::external_type_specification]
#[verifier::external_body]
#[verifier::reject_recursive_types(T)]
pub struct ExArrayVec<T, const CAP: usize>(ArrayVec<T, CAP>);

/// The bytes held by a jump buffer, in order.
pub uninterp spec fn jmp_items(v: ArrayVec<u8, 14>) -> Seq<u8>;

/// `ArrayVec::new`: creates an empty buffer.
#[verifier::external_body]
pub(crate) fn jmp_buffer_new() -> (r: ArrayVec<u8, 14>)
    ensures
        jmp_items(r) == Seq::<u8>::empty(),
{
    ArrayVec::new()
}

/// `ArrayVec::try_extend_from_slice`: appends all of `s` when it fits in the
/// remaining capacity (which the caller guarantees).
#[verifier::external_body]
pub(crate) fn jmp_buffer_extend(v: &mut ArrayVec<u8, 14>, s: &[u8])
    requires
        jmp_items(*old(v)).len() + s@.len() <= 14,
    ensures
        jmp_items(*final(v)) == jmp_items(*old(v)) + s@,
{
    v.try_extend_from_slice(s).unwrap()
}

/// `ArrayVec::as_slice`: the bytes held, in order.
#[verifier::external_body]
pub(crate) fn jmp_buffer_bytes(v: &ArrayVec<u8, 14>) -> (r: &[u8])
    ensures
        r@ == jmp_items(*v),
{
    v.as_slice()
}

/// `jmp qword ptr [rip]` followed by the 64-bit target address.
pub open spec fn jmp64_bytes(to: nat) -> Seq<u8> {
    seq![0xFFu8, 0x25u8, 0u8, 0u8, 0u8, 0u8] + le_bytes(to, 8)
}

/// `jmp rel32` with the given 32-bit displacement bits.
pub open spec fn jmp32_bytes(rel: nat) -> Seq<u8> {
    seq![0xE9u8] + le_bytes(rel, 4)
}

/// The displacement of a 5-byte relative jump from `from` to `to`, when the
/// target lies at least 5 bytes after `from` and the displacement reads as
/// a non-negative signed 32-bit number, as the processor reads it.
pub open spec fn rel32(from: nat, to: nat) -> Option<nat> {
    if to >= from + 5 && to - from - 5 < 0x8000_0000 {
        Some((to - from - 5) as nat)
    } else {
        None
    }
}

/// The jump from `from` to `to`: a 5-byte relative jump when one reaches and
/// 64-bit jumps are not forced, else a 14-byte absolute jump.
pub open spec fn jmp_code(from: nat, to: nat, force_64: bool) -> Seq<u8> {
    match rel32(from, to) {
        Some(rel) if !force_64 => jmp32_bytes(rel),
        _ => jmp64_bytes(to),
    }
}

/// Builds the bytes of a jump from `from` to `to`.
///
/// If `to` lies after `from` within the reach of a signed 32-bit
/// displacement, uses a relative 32-bit jmp (5 bytes), otherwise a full
/// 64-bit jmp (14 bytes); `force_64` always picks the 64-bit form. Either
/// way the jump reaches `to` (see [`lemma_jmp_reaches_target`]).
pub fn make_jmp(from: usize, to: usize, force_64: bool) -> (r: ArrayVec<u8, 14>)
    ensures
        jmp_items(r) == jmp_code(from as nat, to as nat, force_64),
{
    let mut jmp = jmp_buffer_new();
    let relative_addr: Option<u32> = if to >= from && to - from >= 5 && to - from - 5 <= 0x7FFF_FFFF {
        Some((to - from - 5) as u32)
    } else {
        None
    };
    match relative_addr {
        Some(addr) if !force_64 => {
            let mut code: Vec<u8> = vec![0xE9u8];
            push_le(&mut code, addr as u128, 4);
            proof {
                lemma_le_bytes_len(addr as nat, 4);
                assert(code@ =~= jmp32_bytes(addr as nat));
            }
            jmp_buffer_extend(&mut jmp, code.as_slice());
        },
        _ => {
            let mut code: Vec<u8> = vec![0xFFu8, 0x25u8, 0u8, 0u8, 0u8, 0u8];
            push_le(&mut code, to as u128, 8);
            proof {
                lemma_le_bytes_len(to as nat, 8);
                assert(code@ =~= jmp64_bytes(to as nat));
            }
            jmp_buffer_extend(&mut jmp, code.as_slice());
        },
    }
    proof {
        assert(Seq::<u8>::empty() + jmp_code(from as nat, to as nat, force_64) =~= jmp_code(from as nat, to as nat, force_64));
    }
    jmp
}

/// The signed value of 32 displacement bits, as the processor reads them.
pub open spec fn bits_i32(v: nat) -> int {
    if v >= 0x8000_0000 {
        v - 0x1_0000_0000
    } else {
        v as int
    }
}

/// The target a jump's bytes lead to, when executed at address `at`: the
/// 32-bit displacement of a relative jump is sign-extended, and addresses
/// wrap around the 64-bit address space.
pub open spec fn jmp_target(at: nat, code: Seq<u8>) -> Option<int> {
    if code.len() == 5 && code[0] == 0xE9 {
        Some((at + 5 + bits_i32(le_value(code.subrange(1, 5)))) % 0x1_0000_0000_0000_0000)
    } else if code.len() == 14 && code[0] == 0xFF && code[1] == 0x25 && code[2] == 0 && code[3] == 0 && code[4] == 0 && code[5] == 0 {
        Some(le_value(code.subrange(6, 14)) as int)
    } else {
        None
    }
}

/// A jump is 5 bytes long, or 14 when 64-bit jumps are forced or no 32-bit
/// displacement reaches.
proof fn lemma_jmp_len(from: nat, to: nat, force_64: bool)
    ensures
        jmp_code(from, to, force_64).len() == 5 || jmp_code(from, to, force_64).len() == 14,
        force_64 ==> jmp_code(from, to, force_64).len() == 14,
{
    match rel32(from, to) {
        Some(rel) if !force_64 => lemma_le_bytes_len(rel, 4),
        _ => lemma_le_bytes_len(to, 8),
    }
}

/// A jump built by [`make_jmp`] and executed at `from` reaches `to`.
pub proof fn lemma_jmp_reaches_target(from: usize, to: usize, force_64: bool)
    ensures
        jmp_target(from as nat, jmp_code(from as nat, to as nat, force_64)) == Some(to as int),
        jmp_code(from as nat, to as nat, force_64).len() == 5 || jmp_code(from as nat, to as nat, force_64).len() == 14,
        force_64 ==> jmp_code(from as nat, to as nat, force_64).len() == 14,
{
    lemma_pow256_values();
    lemma_jmp_len(from as nat, to as nat, force_64);
    let code = jmp_code(from as nat, to as nat, force_64);
    match rel32(from as nat, to as nat) {
        Some(rel) if !force_64 => {
            lemma_le_bytes_len(rel, 4);
            lemma_le_roundtrip(rel, 4);
            assert(code.subrange(1, 5) =~= le_bytes(rel, 4));
            assert(bits_i32(rel) == rel);
            assert(from + 5 + rel == to);
            assert((to as int) % 0x1_0000_0000_0000_0000 == to) by (nonlinear_arith)
                requires 0 <= to < 0x1_0000_0000_0000_0000;
        },
        _ => {
            lemma_le_bytes_len(to as nat, 8);
            lemma_le_roundtrip(to as nat, 8);
            assert(code.subrange(6, 14) =~= le_bytes(to as nat, 8));
        },
    }
}

/// An error for the [hook](crate::mem::hook) module
#[derive(Debug)]
pub enum HookError {
    /// a memory error
    MemError(MemError),
    /// an asm error
    AsmError(AsmError),
}

/// What installing a hook at `from` writes: the jump over the start of the
/// function, and the trampoline that runs the displaced instructions and
/// jumps back.
#[derive(Debug)]
pub struct HookPlan {
    /// the jump to write at `from`
    pub patch: Vec<u8>,
    /// how many bytes of whole instructions at `from` the jump displaces
    pub code_len: usize,
    /// the trampoline code: the displaced bytes, then a 64-bit jump back to
    /// the first instruction after them
    pub trampoline: Vec<u8>,
}

/// The copy that undoes a hook: `len` bytes from `src` back to `dst`.
#[derive(Debug, Clone, Copy, PartialEq, Eq)]
pub struct RestoreCopy {
    /// where the original bytes are read from (the trampoline)
    pub src: usize,
    /// where they are written back to (the hooked function)
    pub dst: usize,
    /// how many bytes are copied
    pub len: usize,
}

/// A walk never ends past the code it walks.
pub(crate) proof fn lemma_walk_len_bound(code: Seq<u8>, len: nat, min_len: nat)
    requires
        len <= code.len(),
    ensures
        walk_len(code, len, min_len) <= code.len(),
    decreases code.len() - len,
{
    if !(len >= min_len || len >= code.len()) {
        match super::disasm::first_inst(super::disasm::window(code, len)) {
            Some(i) if 0 < i.size <= code.len() - len => {
                lemma_walk_len_bound(code, (len + i.size) as nat, min_len);
            },
            _ => {},
        }
    }
}

/// Copies the bytes of a jump buffer into a vector.
pub(crate) fn jmp_to_vec(jmp: &ArrayVec<u8, 14>) -> (r: Vec<u8>)
    ensures
        r@ == jmp_items(*jmp),
{
    let bytes = jmp_buffer_bytes(jmp);
    vstd::slice::slice_to_vec(bytes)
}

/// Plans a hook from `from` to `to`: starting at `from`, finds the whole
/// instructions that a jump to `to` overwrites; they are placed in the
/// trampoline followed by a jump back, so the caller must verify no relative
/// instructions are displaced.
///
/// `code` holds the bytes found at `from`, at least 29 of them (the longest
/// jump plus the longest instruction).
pub fn plan_hook(from: usize, to: usize, code: &[u8]) -> (r: Result<HookPlan, HookError>)
    requires
        code@.len() >= 29,
        from + code@.len() <= usize::MAX,
    ensures
        from == 0 ==> (r matches Err(HookError::AsmError(e)) && e is BadAddress),
        from != 0 ==> (r matches Ok(plan) && {
            let patch = jmp_code(from as nat, to as nat, false);
            let n = walk_len(code@, 0, patch.len());
            &&& plan.patch@ == patch
            &&& plan.code_len == n
            &&& n <= code@.len()
            &&& plan.trampoline@ == code@.take(n as int) + jmp_code(0, (from + n) as nat, true)
        }),
{
    let jmp = make_jmp(from, to, false);
    let patch = jmp_to_vec(&jmp);
    proof {
        lemma_jmp_len(from as nat, to as nat, false);
    }
    let len = match code_len(from, code, patch.len()) {
        Ok(n) => n,
        Err(e) => return Err(HookError::AsmError(e)),
    };
    proof {
        lemma_walk_len_bound(code@, 0, patch@.len());
    }
    let mut trampoline: Vec<u8> = Vec::new();
    let mut k: usize = 0;
    while k < len
        invariant
            len <= code@.len(),
            k <= len,
            trampoline@ == code@.take(k as int),
        decreases len - k,
    {
        trampoline.push(code[k]);
        k = k + 1;
        assert(trampoline@ =~= code@.take(k as int));
    }
    let back = make_jmp(0, from + len, true);
    let back_bytes = jmp_buffer_bytes(&back);
    let ghost prefix = trampoline@;
    let mut j: usize = 0;
    while j < back_bytes.len()
        invariant
            j <= back_bytes@.len(),
            trampoline@ == prefix + back_bytes@.take(j as int),
        decreases back_bytes@.len() - j,
    {
        trampoline.push(back_bytes[j]);
        j = j + 1;
        assert(trampoline@ =~= prefix + back_bytes@.take(j as int));
    }
    assert(back_bytes@.take(j as int) =~= back_bytes@);
    Ok(HookPlan { patch, code_len: len, trampoline })
}

/// The trampoline to call the original function, once its code has been
/// placed at `address`. Unhooking copies the displaced bytes back.
#[derive(Debug)]
pub struct Trampoline {
    from: usize,
    from_len: usize,
    /// the trampoline address
    pub address: usize,
    /// the code size of the trampoline
    pub size: usize,
}

impl Trampoline {
    /// The function start the hook was placed at, and how many bytes it displaced.
    pub closed spec fn spec_from(&self) -> (usize, usize) {
        (self.from, self.from_len)
    }

    /// The trampoline address.
    pub closed spec fn spec_address(&self) -> usize {
        self.address
    }

    /// The code size of the trampoline.
    pub closed spec fn spec_size(&self) -> usize {
        self.size
    }

    /// A trampoline for the hook planned by `plan` at `from`, with its code
    /// placed at `address`.
    pub fn new(from: usize, plan: &HookPlan, address: usize) -> (r: Trampoline)
        ensures
            r.spec_from() == (from, plan.code_len),
            r.spec_address() == address,
            r.spec_size() == plan.trampoline@.len(),
    {
        Trampoline { from, from_len: plan.code_len, address, size: plan.trampoline.len() }
    }

    /// The trampoline as text: `Trampoline { address: 0x<address>, size:
    /// <size> }`, the address in lowercase hexadecimal zero-padded to the 16
    /// digits of a 64-bit pointer, the size in decimal.
    pub fn to_string(&self) -> (r: String)
        ensures
            r@ == "Trampoline { address: 0x"@ + zero_padded(hex_chars(self.spec_address() as nat), 16)
                + ", size: "@ + dec_chars(self.spec_size() as nat) + " }"@,
    {
        let mut out: Vec<char> = Vec::new();
        push_str(&mut out, "Trampoline { address: 0x");
        push_hex_padded(&mut out, self.address as u128, 16);
        push_str(&mut out, ", size: ");
        push_dec(&mut out, self.size as u128);
        push_str(&mut out, " }");
        string_from_chars(out.as_slice())
    }

    /// The copy that unhooks the trampoline: the displaced bytes at the start
    /// of the trampoline go back to the function start.
    pub fn unhook(self) -> (r: RestoreCopy)
        ensures
            r == (RestoreCopy { src: self.spec_address(), dst: self.spec_from().0, len: self.spec_from().1 }),
    {
        RestoreCopy { src: self.address, dst: self.from, len: self.from_len }
    }
}

/// Unhooking a planned hook copies back exactly the bytes it displaced: the
/// first `code_len` bytes of the trampoline are the function's original bytes,
/// and the restore copy moves that many bytes from the trampoline to `from`.
pub proof fn lemma_unhook_restores(from: usize, code: Seq<u8>, plan: HookPlan, t: Trampoline, address: usize)
    requires
        plan.code_len <= code.len(),
        plan.trampoline@ == code.take(plan.code_len as int) + jmp_code(0, (from + plan.code_len) as nat, true),
        t.spec_from() == (from, plan.code_len),
        t.spec_address() == address,
    ensures
        ({
            let copy = RestoreCopy { src: t.spec_address(), dst: t.spec_from().0, len: t.spec_from().1 };
            &&& copy.src == address
            &&& copy.dst == from
            &&& plan.trampoline@.take(copy.len as int) == code.take(copy.len as int)
        }),
{
    assert(plan.trampoline@.take(plan.code_len as int) =~= code.take(plan.code_len as int));
}

} // verus!
