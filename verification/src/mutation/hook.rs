//! Jump encoding for detouring code, and trampolines that unhook themselves.

use arrayvec::ArrayVec;
use vstd::prelude::*;

use crate::le::{le_bytes, le_value, lemma_le_bytes_len, lemma_le_roundtrip, lemma_pow256_values, push_le};
use crate::mem::disasm::{code_len, walk_len, AsmError};
use crate::mem::hook::{
    jmp32_bytes, jmp64_bytes, jmp_buffer_bytes, jmp_buffer_extend, jmp_buffer_new, jmp_items,
    jmp_to_vec, lemma_walk_len_bound, RestoreCopy,
};
use crate::mem::memory::MemError;
use crate::render::{dec_chars, hex_chars, push_dec, push_hex, push_str, string_from_chars};

verus! {

/// An address read as a signed pointer-sized integer.
pub open spec fn signed_addr(x: usize) -> int {
    if x > isize::MAX {
        x - (usize::MAX + 1)
    } else {
        x as int
    }
}

/// The displacement of a 5-byte relative jump from `from` to `to`, computed on
/// the addresses read as signed integers, when no step leaves the signed
/// pointer range and it fits in 32 signed bits.
pub open spec fn rel32(from: usize, to: usize) -> Option<int> {
    let d = signed_addr(to) - signed_addr(from);
    let e = d - 5;
    if isize::MIN <= d <= isize::MAX && isize::MIN <= e <= isize::MAX && i32::MIN <= e <= i32::MAX {
        Some(e)
    } else {
        None
    }
}

/// The 32 displacement bits of a signed 32-bit value.
pub open spec fn i32_bits(e: int) -> nat {
    if e < 0 {
        (e + 0x1_0000_0000) as nat
    } else {
        e as nat
    }
}

/// The jump from `from` to `to`: a 5-byte relative jump when one reaches and
/// 64-bit jumps are not forced, else a 14-byte absolute jump.
pub open spec fn jmp_code(from: usize, to: usize, force_64: bool) -> Seq<u8> {
    match rel32(from, to) {
        Some(e) if !force_64 => jmp32_bytes(i32_bits(e)),
        _ => jmp64_bytes(to as nat),
    }
}

/// Builds the bytes of a jump from `from` to `to`.
///
/// If `to` lies within 32 signed bits of `from`, uses a relative 32-bit jmp
/// (5 bytes), otherwise a full 64-bit jmp (14 bytes); `force_64` always picks
/// the 64-bit form.
pub fn make_jmp(from: usize, to: usize, force_64: bool) -> (r: ArrayVec<u8, 14>)
    ensures
        jmp_items(r) == jmp_code(from, to, force_64),
{
    let mut jmp = jmp_buffer_new();
    let t: i128 = if to > isize::MAX as usize { to as i128 - (usize::MAX as i128 + 1) } else { to as i128 };
    let f: i128 = if from > isize::MAX as usize { from as i128 - (usize::MAX as i128 + 1) } else { from as i128 };
    let d: i128 = t - f;
    let relative_addr: Option<i128> = if isize::MIN as i128 <= d && d <= isize::MAX as i128 && isize::MIN as i128 <= d - 5
        && d - 5 <= isize::MAX as i128 && i32::MIN as i128 <= d - 5 && d - 5 <= i32::MAX as i128 {
        Some(d - 5)
    } else {
        None
    };
    match relative_addr {
        Some(e) if !force_64 => {
            let bits: u128 = if e < 0 { (e + 0x1_0000_0000) as u128 } else { e as u128 };
            let mut code: Vec<u8> = vec![0xE9u8];
            push_le(&mut code, bits, 4);
            proof {
                lemma_le_bytes_len(bits as nat, 4);
                assert(code@ =~= jmp32_bytes(i32_bits(e as int)));
            }
            jmp_buffer_extend(&mut jmp, code.as_slice());
        },
        _ => {
            let mut code: Vec<u8> = vec![0xFFu8, 0x25u8, 0u8, 0u8, 0u8, 0u8];
            push_le(&mut code, to as u128, 8);
            proof {
                lemma_le_bytes_len(to as nat, 8);
                assert(code@ =~= jmp64_bytes(to as nat));
            }
            jmp_buffer_extend(&mut jmp, code.as_slice());
        },
    }
    proof {
        assert(Seq::<u8>::empty() + jmp_code(from, to, force_64) =~= jmp_code(from, to, force_64));
    }
    jmp
}

/// The signed value of 32 displacement bits.
pub open spec fn bits_i32(v: nat) -> int {
    if v >= 0x8000_0000 {
        v - 0x1_0000_0000
    } else {
        v as int
    }
}

/// The target a jump's bytes lead to, when executed at address `at`
/// (addresses wrap around the address space).
pub open spec fn jmp_target(at: usize, code: Seq<u8>) -> Option<int> {
    if code.len() == 5 && code[0] == 0xE9 {
        Some((at + 5 + bits_i32(le_value(code.subrange(1, 5)))) % (usize::MAX + 1))
    } else if code.len() == 14 && code[0] == 0xFF && code[1] == 0x25 && code[2] == 0 && code[3] == 0 && code[4] == 0 && code[5] == 0 {
        Some(le_value(code.subrange(6, 14)) as int)
    } else {
        None
    }
}

/// A jump built by [`make_jmp`] and executed at `from` reaches `to`.
pub proof fn lemma_jmp_reaches_target(from: usize, to: usize, force_64: bool)
    ensures
        jmp_target(from, jmp_code(from, to, force_64)) == Some(to as int),
        jmp_code(from, to, force_64).len() == 5 || jmp_code(from, to, force_64).len() == 14,
        force_64 ==> jmp_code(from, to, force_64).len() == 14,
{
    lemma_pow256_values();
    let code = jmp_code(from, to, force_64);
    match rel32(from, to) {
        Some(e) if !force_64 => {
            let bits = i32_bits(e);
            lemma_le_bytes_len(bits, 4);
            lemma_le_roundtrip(bits, 4);
            assert(code.subrange(1, 5) =~= le_bytes(bits, 4));
            assert(bits_i32(bits) == e);
            let m = usize::MAX + 1;
            assert(signed_addr(to) == to || signed_addr(to) == to - m);
            assert(signed_addr(from) == from || signed_addr(from) == from - m);
            let sum = from + 5 + e;
            assert(sum == to || sum == to + m || sum == to - m);
            assert(0 <= to < m);
            if sum == to + m {
                assert((to + m) % m == to) by (nonlinear_arith) requires 0 <= to < m;
            } else if sum == to - m {
                assert((to - m) % m == to) by (nonlinear_arith) requires 0 <= to < m;
            } else {
                assert((to as int) % m == to) by (nonlinear_arith) requires 0 <= to < m;
            }
        },
        _ => {
            lemma_le_bytes_len(to as nat, 8);
            lemma_le_roundtrip(to as nat, 8);
            assert(code.subrange(6, 14) =~= le_bytes(to as nat, 8));
        },
    }
}

/// An error for the [hook](crate::mutation::hook) module
#[derive(Debug)]
pub enum HookError {
    /// a memory error
    MemError(MemError),
    /// an asm error
    AsmError(AsmError),
}

/// What installing a hook at `from` writes: the jump over the start of the
/// function, and the trampoline that runs the displaced instructions and
/// jumps back.
#[derive(Debug)]
pub struct HookPlan {
    /// the jump to write at `from`
    pub patch: Vec<u8>,
    /// how many bytes of whole instructions at `from` the jump displaces
    pub code_len: usize,
    /// the trampoline code: the displaced bytes, then a 64-bit jump back to
    /// the first instruction after them
    pub trampoline: Vec<u8>,
}

/// Plans a hook from `from` to `to`: starting at `from`, finds the whole
/// instructions that a jump to `to` overwrites; they are placed in the
/// trampoline followed by a jump back, so the caller must verify no relative
/// instructions are displaced.
///
/// `code` holds the bytes found at `from`, at least 29 of them (the longest
/// jump plus the longest instruction).
pub fn plan_hook(from: usize, to: usize, code: &[u8]) -> (r: Result<HookPlan, HookError>)
    requires
        code@.len() >= 29,
        from + code@.len() <= usize::MAX,
    ensures
        from == 0 ==> (r matches Err(HookError::AsmError(e)) && e is BadAddress),
        from != 0 ==> (r matches Ok(plan) && {
            let patch = jmp_code(from, to, false);
            let n = walk_len(code@, 0, patch.len());
            &&& plan.patch@ == patch
            &&& plan.code_len == n
            &&& n <= code@.len()
            &&& plan.trampoline@ == code@.take(n as int) + jmp_code(0, (from + n) as usize, true)
        }),
{
    let jmp = make_jmp(from, to, false);
    let patch = jmp_to_vec(&jmp);
    proof {
        lemma_jmp_reaches_target(from, to, false);
    }
    let len = match code_len(from, code, patch.len()) {
        Ok(n) => n,
        Err(e) => return Err(HookError::AsmError(e)),
    };
    proof {
        lemma_walk_len_bound(code@, 0, patch@.len());
    }
    let mut trampoline: Vec<u8> = Vec::new();
    let mut k: usize = 0;
    while k < len
        invariant
            len <= code@.len(),
            k <= len,
            trampoline@ == code@.take(k as int),
        decreases len - k,
    {
        trampoline.push(code[k]);
        k = k + 1;
        assert(trampoline@ =~= code@.take(k as int));
    }
    let back = make_jmp(0, from + len, true);
    let back_bytes = jmp_buffer_bytes(&back);
    let ghost prefix = trampoline@;
    let mut j: usize = 0;
    while j < back_bytes.len()
        invariant
            j <= back_bytes@.len(),
            trampoline@ == prefix + back_bytes@.take(j as int),
        decreases back_bytes@.len() - j,
    {
        trampoline.push(back_bytes[j]);
        j = j + 1;
        assert(trampoline@ =~= prefix + back_bytes@.take(j as int));
    }
    assert(back_bytes@.take(j as int) =~= back_bytes@);
    Ok(HookPlan { patch, code_len: len, trampoline })
}

/// The trampoline to call the original function, once its code has been
/// placed at `address`. Unhooking copies the displaced bytes back; clones
/// describe the same trampoline, and dropping one unhooks.
#[derive(Debug, Clone, Copy)]
pub struct Trampoline {
    from: usize,
    from_len: usize,
    /// the trampoline address
    pub address: usize,
    /// the code size of the trampoline
    pub size: usize,
}

impl Trampoline {
    /// The function start the hook was placed at, and how many bytes it displaced.
    pub closed spec fn spec_from(&self) -> (usize, usize) {
        (self.from, self.from_len)
    }

    /// The trampoline address.
    pub closed spec fn spec_address(&self) -> usize {
        self.address
    }

    /// The code size of the trampoline.
    pub closed spec fn spec_size(&self) -> usize {
        self.size
    }

    /// A trampoline for the hook planned by `plan` at `from`, with its code
    /// placed at `address`.
    pub fn new(from: usize, plan: &HookPlan, address: usize) -> (r: Trampoline)
        ensures
            r.spec_from() == (from, plan.code_len),
            r.spec_address() == address,
            r.spec_size() == plan.trampoline@.len(),
    {
        Trampoline { from, from_len: plan.code_len, address, size: plan.trampoline.len() }
    }

    /// The trampoline as text: `Trampoline { address: 0x<address>, size:
    /// <size> }`, the address in lowercase hexadecimal, the size in decimal.
    pub fn to_string(&self) -> (r: String)
        ensures
            r@ == "Trampoline { address: 0x"@ + hex_chars(self.spec_address() as nat) + ", size: "@
                + dec_chars(self.spec_size() as nat) + " }"@,
    {
        let mut out: Vec<char> = Vec::new();
        push_str(&mut out, "Trampoline { address: 0x");
        push_hex(&mut out, self.address as u128);
        push_str(&mut out, ", size: ");
        push_dec(&mut out, self.size as u128);
        push_str(&mut out, " }");
        string_from_chars(out.as_slice())
    }

    /// The copy that unhooks the trampoline: the displaced bytes at the start
    /// of the trampoline go back to the function start.
    pub fn unhook(&self) -> (r: RestoreCopy)
        ensures
            r == (RestoreCopy { src: self.spec_address(), dst: self.spec_from().0, len: self.spec_from().1 }),
    {
        RestoreCopy { src: self.address, dst: self.from, len: self.from_len }
    }
}

/// Unhooking a planned hook copies back exactly the bytes it displaced: the
/// first `code_len` bytes of the trampoline are the function's original bytes,
/// and the restore copy moves that many bytes from the trampoline to `from`.
pub proof fn lemma_unhook_restores(from: usize, code: Seq<u8>, plan: HookPlan, t: Trampoline, address: usize)
    requires
        plan.code_len <= code.len(),
        plan.trampoline@ == code.take(plan.code_len as int) + jmp_code(0, (from + plan.code_len) as usize, true),
        t.spec_from() == (from, plan.code_len),
        t.spec_address() == address,
    ensures
        ({
            let copy = RestoreCopy { src: t.spec_address(), dst: t.spec_from().0, len: t.spec_from().1 };
            &&& copy.src == address
            &&& copy.dst == from
            &&& plan.trampoline@.take(copy.len as int) == code.take(copy.len as int)
        }),
{
    assert(plan.trampoline@.take(plan.code_len as int) =~= code.take(plan.code_len as int));
}

} // verus!
