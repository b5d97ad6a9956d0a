//! Little-endian byte encodings of unsigned values.

use vstd::prelude::*;

verus! {

/// 256 to the power `n`.
pub open spec fn pow256(n: nat) -> nat
    decreases n,
{
    if n == 0 {
        1
    } else {
        256 * pow256((n - 1) as nat)
    }
}

/// The lowest `n` bytes of `v`, least significant first.
pub open spec fn le_bytes(v: nat, n: nat) -> Seq<u8>
    decreases n,
{
    if n == 0 {
        Seq::empty()
    } else {
        seq![(v % 256) as u8] + le_bytes(v / 256, (n - 1) as nat)
    }
}

/// The value of bytes read least significant first.
pub open spec fn le_value(bs: Seq<u8>) -> nat
    decreases bs.len(),
{
    if bs.len() == 0 {
        0
    } else {
        bs[0] as nat + 256 * le_value(bs.drop_first())
    }
}

/// An encoding has the length asked for.
pub proof fn lemma_le_bytes_len(v: nat, n: nat)
    ensures
        le_bytes(v, n).len() == n,
    decreases n,
{
    if n > 0 {
        lemma_le_bytes_len(v / 256, (n - 1) as nat);
    }
}

/// Powers of 256 are positive.
pub proof fn lemma_pow256_pos(n: nat)
    ensures
        pow256(n) >= 1,
    decreases n,
{
    if n > 0 {
        lemma_pow256_pos((n - 1) as nat);
    }
}

/// The value of `n` bytes is below 256 to the `n`.
pub proof fn lemma_le_value_bound(bs: Seq<u8>)
    ensures
        le_value(bs) < pow256(bs.len()),
    decreases bs.len(),
{
    if bs.len() > 0 {
        lemma_le_value_bound(bs.drop_first());
        let r = le_value(bs.drop_first());
        let p = pow256((bs.len() - 1) as nat);
        assert(r + 1 <= p);
        assert(bs[0] as nat + 256 * r < 256 * p) by (nonlinear_arith)
            requires
                r + 1 <= p,
                bs[0] < 256,
        ;
    }
}

/// Decoding an encoding gives back the value, when it fits.
pub proof fn lemma_le_roundtrip(v: nat, n: nat)
    requires
        v < pow256(n),
    ensures
        le_value(le_bytes(v, n)) == v,
    decreases n,
{
    if n > 0 {
        let p = pow256((n - 1) as nat);
        assert(v / 256 < p) by (nonlinear_arith)
            requires
                v < 256 * p,
        ;
        lemma_le_roundtrip(v / 256, (n - 1) as nat);
        let bs = le_bytes(v, n);
        assert(bs.drop_first() =~= le_bytes(v / 256, (n - 1) as nat));
    }
}

/// Equal bytes give equal encodings' values.
pub proof fn lemma_pow256_values()
    ensures
        pow256(1) == 0x100,
        pow256(2) == 0x1_0000,
        pow256(4) == 0x1_0000_0000,
        pow256(8) == 0x1_0000_0000_0000_0000,
        pow256(16) == 0x1_0000_0000_0000_0000_0000_0000_0000_0000,
{
    reveal_with_fuel(pow256, 17);
}

/// Appends the lowest `n` bytes of `v`, least significant first.
pub fn push_le(buf: &mut Vec<u8>, v: u128, n: usize)
    ensures
        final(buf)@ == old(buf)@ + le_bytes(v as nat, n as nat),
{
    let mut x: u128 = v;
    let mut k: usize = 0;
    proof {
        assert(old(buf)@ + le_bytes(v as nat, n as nat) =~= buf@ + le_bytes(x as nat, (n - k) as nat));
    }
    while k < n
        invariant
            k <= n,
            buf@ + le_bytes(x as nat, (n - k) as nat) == old(buf)@ + le_bytes(v as nat, n as nat),
        decreases n - k,
    {
        let ghost before = buf@;
        let ghost rest = le_bytes(x as nat, (n - k) as nat);
        buf.push((x % 256) as u8);
        proof {
            assert(rest =~= seq![(x % 256) as u8] + le_bytes((x / 256) as nat, (n - k - 1) as nat));
            assert(buf@ + le_bytes((x / 256) as nat, (n - k - 1) as nat) =~= before + rest);
        }
        x = x / 256;
        k = k + 1;
    }
}

/// Overwrites `n` bytes of `buf` at `off` with the lowest `n` bytes of `v`,
/// least significant first.
pub fn write_le(buf: &mut Vec<u8>, off: usize, v: u128, n: usize)
    requires
        off + n <= old(buf)@.len(),
    ensures
        final(buf)@ == old(buf)@.subrange(0, off as int) + le_bytes(v as nat, n as nat) + old(buf)@.subrange(
            off + n,
            old(buf)@.len() as int,
        ),
{
    let ghost orig = buf@;
    let total = buf.len();
    let mut tmp: Vec<u8> = Vec::new();
    push_le(&mut tmp, v, n);
    proof {
        lemma_le_bytes_len(v as nat, n as nat);
        assert(tmp@ =~= le_bytes(v as nat, n as nat));
    }
    let mut k: usize = 0;
    while k < n
        invariant
            off + n <= orig.len(),
            total == orig.len(),
            buf@.len() == orig.len(),
            tmp@ == le_bytes(v as nat, n as nat),
            tmp@.len() == n,
            k <= n,
            forall|j: int|
                0 <= j < orig.len() ==> #[trigger] buf@[j] == (if off <= j < off + k {
                    tmp@[j - off]
                } else {
                    orig[j]
                }),
        decreases n - k,
    {
        buf.set(off + k, tmp[k]);
        k = k + 1;
    }
    assert(buf@ =~= orig.subrange(0, off as int) + le_bytes(v as nat, n as nat) + orig.subrange(
        off + n,
        orig.len() as int,
    ));
}

/// The value of `n` bytes of `bytes` starting at `off`, least significant first.
pub fn read_le(bytes: &[u8], off: usize, n: usize) -> (r: u128)
    requires
        off + n <= bytes@.len(),
        n <= 16,
    ensures
        r as nat == le_value(bytes@.subrange(off as int, off + n)),
{
    let total = bytes.len();
    let mut x: u128 = 0;
    let mut k: usize = n;
    proof {
        assert(bytes@.subrange(off + n, off + n) =~= Seq::<u8>::empty());
    }
    while k > 0
        invariant
            off + n <= bytes@.len(),
            total == bytes@.len(),
            n <= 16,
            k <= n,
            x as nat == le_value(bytes@.subrange(off + k, off + n)),
        decreases k,
    {
        let ghost tail = bytes@.subrange(off + k, off + n);
        let ghost next = bytes@.subrange(off + k - 1, off + n);
        proof {
            assert(next.drop_first() =~= tail);
            lemma_le_value_bound(tail);
            lemma_pow256_values();
            lemma_pow_mono(tail.len(), 15);
            assert(x * 256 + bytes@[off + k - 1] < 0x1_0000_0000_0000_0000_0000_0000_0000_0000) by (nonlinear_arith)
                requires
                    x < pow256(tail.len()),
                    pow256(tail.len()) <= pow256(15),
                    pow256(16) == 256 * pow256(15),
                    pow256(16) == 0x1_0000_0000_0000_0000_0000_0000_0000_0000,
                    bytes@[off + k - 1] < 256,
            ;
        }
        let idx = off + (k - 1);
        let b = bytes[idx];
        x = x * 256 + b as u128;
        k = k - 1;
    }
    x
}

/// Powers of 256 grow with the exponent.
pub proof fn lemma_pow_mono(a: nat, b: nat)
    requires
        a <= b,
    ensures
        pow256(a) <= pow256(b),
    decreases b,
{
    if a < b {
        lemma_pow_mono(a, (b - 1) as nat);
        lemma_pow256_pos((b - 1) as nat);
    }
}

} // verus!
