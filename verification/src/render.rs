//! Rendering values as text: hexadecimal digits, and strings built from
//! characters.

use vstd::prelude::*;

use crate::mem::pattern::str_chars;

verus! {

/// `std`'s `String: FromIterator<char>`: the string of the characters, in
/// order.
#[verifier::external_body]
pub(crate) fn string_from_chars(chars: &[char]) -> (r: String)
    ensures
        r@ == chars@,
{
    chars.iter().collect::<String>()
}

/// The lowercase hexadecimal digit for `d`.
pub open spec fn hex_digit_char(d: nat) -> char {
    seq!['0', '1', '2', '3', '4', '5', '6', '7', '8', '9', 'a', 'b', 'c', 'd', 'e', 'f'][d as int]
}

/// The lowercase hexadecimal digits of `v`, without leading zeros (`0` for zero).
pub open spec fn hex_chars(v: nat) -> Seq<char>
    decreases v,
{
    if v < 16 {
        seq![hex_digit_char(v)]
    } else {
        hex_chars(v / 16).push(hex_digit_char(v % 16))
    }
}

/// The lowercase hexadecimal digit for `d`.
fn digit(d: u128) -> (c: char)
    requires
        d < 16,
    ensures
        c == hex_digit_char(d as nat),
{
    let table = ['0', '1', '2', '3', '4', '5', '6', '7', '8', '9', 'a', 'b', 'c', 'd', 'e', 'f'];
    assert(table@ =~= seq!['0', '1', '2', '3', '4', '5', '6', '7', '8', '9', 'a', 'b', 'c', 'd', 'e', 'f']);
    table[d as usize]
}

/// Appends the lowercase hexadecimal digits of `v` to `out`.
pub fn push_hex(out: &mut Vec<char>, v: u128)
    ensures
        final(out)@ == old(out)@ + hex_chars(v as nat),
{
    let mut x = v;
    let mut acc: Vec<char> = Vec::new();
    while x >= 16
        invariant
            hex_chars(v as nat) == hex_chars(x as nat) + acc@,
        decreases x,
    {
        let ghost before = acc@;
        acc.insert(0, digit(x % 16));
        proof {
            assert(hex_chars(x as nat) == hex_chars((x / 16) as nat).push(hex_digit_char((x % 16) as nat)));
            assert(hex_chars((x / 16) as nat) + acc@ =~= hex_chars(x as nat) + before);
        }
        x = x / 16;
    }
    let ghost start = out@;
    out.push(digit(x));
    let mut k: usize = 0;
    while k < acc.len()
        invariant
            k <= acc@.len(),
            out@ == start + seq![hex_digit_char(x as nat)] + acc@.take(k as int),
        decreases acc@.len() - k,
    {
        out.push(acc[k]);
        k = k + 1;
        assert(out@ =~= start + seq![hex_digit_char(x as nat)] + acc@.take(k as int));
    }
    assert(acc@.take(k as int) =~= acc@);
    assert(hex_chars(x as nat) =~= seq![hex_digit_char(x as nat)]);
    assert(out@ =~= start + hex_chars(v as nat));
}

/// Appends the characters of `s` to `out`.
pub fn push_str(out: &mut Vec<char>, s: &str)
    ensures
        final(out)@ == old(out)@ + s@,
{
    let chars = str_chars(s);
    let ghost start = out@;
    let mut k: usize = 0;
    while k < chars.len()
        invariant
            chars@ == s@,
            k <= chars@.len(),
            out@ == start + s@.take(k as int),
        decreases chars@.len() - k,
    {
        out.push(chars[k]);
        k = k + 1;
        assert(out@ =~= start + s@.take(k as int));
    }
    assert(s@.take(k as int) =~= s@);
}

/// The bytes in lowercase hexadecimal, separated by `, `.
pub open spec fn hex_list(bs: Seq<u8>) -> Seq<char>
    decreases bs.len(),
{
    if bs.len() == 0 {
        Seq::empty()
    } else if bs.len() == 1 {
        hex_chars(bs[0] as nat)
    } else {
        hex_list(bs.drop_last()) + seq![',', ' '] + hex_chars(bs.last() as nat)
    }
}

/// Appends the bytes as a bracketed list of lowercase hexadecimal numbers,
/// as `{:x?}` shows a byte vector.
pub fn push_hex_list(out: &mut Vec<char>, bs: &[u8])
    ensures
        final(out)@ == old(out)@ + seq!['['] + hex_list(bs@) + seq![']'],
{
    let ghost start = out@;
    out.push('[');
    let mut k: usize = 0;
    while k < bs.len()
        invariant
            k <= bs@.len(),
            out@ == start + seq!['['] + hex_list(bs@.take(k as int)),
        decreases bs@.len() - k,
    {
        proof {
            assert(bs@.take(k + 1).drop_last() =~= bs@.take(k as int));
            assert(bs@.take(k + 1).last() == bs@[k as int]);
        }
        if k > 0 {
            out.push(',');
            out.push(' ');
        }
        push_hex(out, bs[k] as u128);
        k = k + 1;
        assert(out@ =~= start + seq!['['] + hex_list(bs@.take(k as int)));
    }
    assert(bs@.take(k as int) =~= bs@);
    out.push(']');
}

/// The decimal digit for `d`.
pub open spec fn dec_digit_char(d: nat) -> char {
    seq!['0', '1', '2', '3', '4', '5', '6', '7', '8', '9'][d as int]
}

/// The decimal digits of `v`, without leading zeros (`0` for zero).
pub open spec fn dec_chars(v: nat) -> Seq<char>
    decreases v,
{
    if v < 10 {
        seq![dec_digit_char(v)]
    } else {
        dec_chars(v / 10).push(dec_digit_char(v % 10))
    }
}

/// The decimal digit for `d`.
fn dec_digit(d: u128) -> (c: char)
    requires
        d < 10,
    ensures
        c == dec_digit_char(d as nat),
{
    let table = ['0', '1', '2', '3', '4', '5', '6', '7', '8', '9'];
    assert(table@ =~= seq!['0', '1', '2', '3', '4', '5', '6', '7', '8', '9']);
    table[d as usize]
}

/// Appends the decimal digits of `v` to `out`.
pub fn push_dec(out: &mut Vec<char>, v: u128)
    ensures
        final(out)@ == old(out)@ + dec_chars(v as nat),
{
    let mut x = v;
    let mut acc: Vec<char> = Vec::new();
    while x >= 10
        invariant
            dec_chars(v as nat) == dec_chars(x as nat) + acc@,
        decreases x,
    {
        let ghost before = acc@;
        acc.insert(0, dec_digit(x % 10));
        proof {
            assert(dec_chars(x as nat) == dec_chars((x / 10) as nat).push(dec_digit_char((x % 10) as nat)));
            assert(dec_chars((x / 10) as nat) + acc@ =~= dec_chars(x as nat) + before);
        }
        x = x / 10;
    }
    let ghost start = out@;
    out.push(dec_digit(x));
    let mut k: usize = 0;
    while k < acc.len()
        invariant
            k <= acc@.len(),
            out@ == start + seq![dec_digit_char(x as nat)] + acc@.take(k as int),
        decreases acc@.len() - k,
    {
        out.push(acc[k]);
        k = k + 1;
        assert(out@ =~= start + seq![dec_digit_char(x as nat)] + acc@.take(k as int));
    }
    assert(acc@.take(k as int) =~= acc@);
    assert(dec_chars(x as nat) =~= seq![dec_digit_char(x as nat)]);
    assert(out@ =~= start + dec_chars(v as nat));
}

/// `digits` with `'0'`s in front, to at least `width` characters.
pub open spec fn zero_padded(digits: Seq<char>, width: nat) -> Seq<char> {
    if digits.len() < width {
        Seq::new((width - digits.len()) as nat, |i: int| '0') + digits
    } else {
        digits
    }
}

/// Appends the lowercase hexadecimal digits of `v`, with zeros in front to
/// at least `width` characters.
pub fn push_hex_padded(out: &mut Vec<char>, v: u128, width: usize)
    ensures
        final(out)@ == old(out)@ + zero_padded(hex_chars(v as nat), width as nat),
{
    let ghost start = out@;
    let mut digits: Vec<char> = Vec::new();
    push_hex(&mut digits, v);
    assert(digits@ =~= hex_chars(v as nat));
    let mut k: usize = digits.len();
    while k < width
        invariant
            digits@ == hex_chars(v as nat),
            digits@.len() <= k <= width || (k == digits@.len() && k >= width),
            out@ == start + Seq::new((k - digits@.len()) as nat, |i: int| '0'),
        decreases width - k,
    {
        out.push('0');
        k = k + 1;
        assert(out@ =~= start + Seq::new((k - digits@.len()) as nat, |i: int| '0'));
    }
    let ghost mid = out@;
    let mut j: usize = 0;
    while j < digits.len()
        invariant
            j <= digits@.len(),
            out@ == mid + digits@.take(j as int),
        decreases digits@.len() - j,
    {
        out.push(digits[j]);
        j = j + 1;
        assert(out@ =~= mid + digits@.take(j as int));
    }
    assert(digits@.take(j as int) =~= digits@);
    if digits.len() < width {
        assert(out@ =~= start + zero_padded(hex_chars(v as nat), width as nat));
    } else {
        assert(Seq::new((k - digits@.len()) as nat, |i: int| '0') =~= Seq::<char>::empty());
        assert(out@ =~= start + zero_padded(hex_chars(v as nat), width as nat));
    }
}

} // verus!
