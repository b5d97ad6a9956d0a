//! IDA-style byte patterns: hex bytes separated by spaces, with `?` or `??`
//! standing for a byte that matches anything.

use vstd::prelude::*;
use vstd::string::*;

use super::aligned_bytes::{lemma_pow2_32, max_layout_size, AlignedBytes};

verus! {

/// Errors when building a [`Pattern`]
#[derive(Debug, Clone, Copy, PartialEq, Eq)]
pub enum PatternError {
    /// pattern is invalid. pattern must be a-f, A-F, 0-9, or ?? or ? for wildcards
    Pat,
    /// mask is invalid. mask must be x or ? for wildcards
    Mask,
    /// mask is not the same length as the data
    MaskLen,
}

/// Pattern storage is padded to a multiple of this many bytes.
pub const PATTERN_ALIGN: usize = 32;

/// The value of a hexadecimal digit, if `c` is one.
pub open spec fn hex_digit(c: char) -> Option<u8> {
    if '0' <= c && c <= '9' {
        Some((c as u32 - '0' as u32) as u8)
    } else if 'a' <= c && c <= 'f' {
        Some((c as u32 - 'a' as u32 + 10) as u8)
    } else if 'A' <= c && c <= 'F' {
        Some((c as u32 - 'A' as u32 + 10) as u8)
    } else {
        None
    }
}

/// The bytes an IDA-style pattern text denotes, `None` standing for a wildcard,
/// or `None` overall when the text is malformed.
///
/// Spaces are skipped; `?` is a wildcard and swallows one directly following `?`;
/// anything else must be two hexadecimal digits forming one byte.
pub open spec fn parse_ida(s: Seq<char>) -> Option<Seq<Option<u8>>>
    decreases s.len(),
{
    if s.len() == 0 {
        Some(Seq::empty())
    } else if s[0] == ' ' {
        parse_ida(s.drop_first())
    } else if s[0] == '?' {
        let rest = if s.len() > 1 && s[1] == '?' { s.skip(2) } else { s.drop_first() };
        match parse_ida(rest) {
            Some(r) => Some(seq![None::<u8>] + r),
            None => None,
        }
    } else if s.len() < 2 || hex_digit(s[0]) is None || hex_digit(s[1]) is None {
        None
    } else {
        let byte = (hex_digit(s[0])->0 * 16 + hex_digit(s[1])->0) as u8;
        match parse_ida(s.skip(2)) {
            Some(r) => Some(seq![Some(byte)] + r),
            None => None,
        }
    }
}

/// The lowercase hexadecimal digits, in order of value.
pub open spec fn lower_hex() -> Seq<char> {
    seq!['0', '1', '2', '3', '4', '5', '6', '7', '8', '9', 'a', 'b', 'c', 'd', 'e', 'f']
}

/// The uppercase hexadecimal digits, in order of value.
pub open spec fn upper_hex() -> Seq<char> {
    seq!['0', '1', '2', '3', '4', '5', '6', '7', '8', '9', 'A', 'B', 'C', 'D', 'E', 'F']
}

/// A character is a hexadecimal digit exactly when it is an ASCII one
/// (`0`-`9`, `a`-`f`, `A`-`F`), and each digit, in either case, is worth
/// its place in the digit sequence.
pub proof fn law_hex_digit_standard(c: char)
    ensures
        hex_digit(c) is Some <==> (('0' <= c && c <= '9') || ('a' <= c && c <= 'f') || ('A' <= c && c <= 'F')),
        forall|d: int| 0 <= d < 16 ==> hex_digit(#[trigger] lower_hex()[d]) == Some(d as u8),
        forall|d: int| 0 <= d < 16 ==> hex_digit(#[trigger] upper_hex()[d]) == Some(d as u8),
{
    assert forall|d: int| 0 <= d < 16 implies hex_digit(#[trigger] lower_hex()[d]) == Some(d as u8)
        && hex_digit(upper_hex()[d]) == Some(d as u8) by {
    if d == 0 {
        assert(lower_hex()[0] == '0');
        assert(upper_hex()[0] == '0');
        assert(hex_digit('0') == Some(0u8));
        assert(hex_digit('0') == Some(0u8));
    } else if d == 1 {
        assert(lower_hex()[1] == '1');
        assert(upper_hex()[1] == '1');
        assert(hex_digit('1') == Some(1u8));
        assert(hex_digit('1') == Some(1u8));
    } else if d == 2 {
        assert(lower_hex()[2] == '2');
        assert(upper_hex()[2] == '2');
        assert(hex_digit('2') == Some(2u8));
        assert(hex_digit('2') == Some(2u8));
    } else if d == 3 {
        assert(lower_hex()[3] == '3');
        assert(upper_hex()[3] == '3');
        assert(hex_digit('3') == Some(3u8));
        assert(hex_digit('3') == Some(3u8));
    } else if d == 4 {
        assert(lower_hex()[4] == '4');
        assert(upper_hex()[4] == '4');
        assert(hex_digit('4') == Some(4u8));
        assert(hex_digit('4') == Some(4u8));
    } else if d == 5 {
        assert(lower_hex()[5] == '5');
        assert(upper_hex()[5] == '5');
        assert(hex_digit('5') == Some(5u8));
        assert(hex_digit('5') == Some(5u8));
    } else if d == 6 {
        assert(lower_hex()[6] == '6');
        assert(upper_hex()[6] == '6');
        assert(hex_digit('6') == Some(6u8));
        assert(hex_digit('6') == Some(6u8));
    } else if d == 7 {
        assert(lower_hex()[7] == '7');
        assert(upper_hex()[7] == '7');
        assert(hex_digit('7') == Some(7u8));
        assert(hex_digit('7') == Some(7u8));
    } else if d == 8 {
        assert(lower_hex()[8] == '8');
        assert(upper_hex()[8] == '8');
        assert(hex_digit('8') == Some(8u8));
        assert(hex_digit('8') == Some(8u8));
    } else if d == 9 {
        assert(lower_hex()[9] == '9');
        assert(upper_hex()[9] == '9');
        assert(hex_digit('9') == Some(9u8));
        assert(hex_digit('9') == Some(9u8));
    } else if d == 10 {
        assert(lower_hex()[10] == 'a');
        assert(upper_hex()[10] == 'A');
        assert(hex_digit('a') == Some(10u8));
        assert(hex_digit('A') == Some(10u8));
    } else if d == 11 {
        assert(lower_hex()[11] == 'b');
        assert(upper_hex()[11] == 'B');
        assert(hex_digit('b') == Some(11u8));
        assert(hex_digit('B') == Some(11u8));
    } else if d == 12 {
        assert(lower_hex()[12] == 'c');
        assert(upper_hex()[12] == 'C');
        assert(hex_digit('c') == Some(12u8));
        assert(hex_digit('C') == Some(12u8));
    } else if d == 13 {
        assert(lower_hex()[13] == 'd');
        assert(upper_hex()[13] == 'D');
        assert(hex_digit('d') == Some(13u8));
        assert(hex_digit('D') == Some(13u8));
    } else if d == 14 {
        assert(lower_hex()[14] == 'e');
        assert(upper_hex()[14] == 'E');
        assert(hex_digit('e') == Some(14u8));
        assert(hex_digit('E') == Some(14u8));
    } else if d == 15 {
        assert(lower_hex()[15] == 'f');
        assert(upper_hex()[15] == 'F');
        assert(hex_digit('f') == Some(15u8));
        assert(hex_digit('F') == Some(15u8));
    }
    }
    assert forall|d: int| 0 <= d < 16 implies hex_digit(#[trigger] upper_hex()[d]) == Some(d as u8) by {
        assert(hex_digit(lower_hex()[d]) == Some(d as u8) && hex_digit(upper_hex()[d]) == Some(d as u8));
    }
}

/// Two hexadecimal digits make the one byte whose high and low halves they
/// are worth: a pattern of two digits, in either case, is that byte.
pub proof fn law_two_digits_one_byte(hi: int, lo: int)
    requires
        0 <= hi < 16,
        0 <= lo < 16,
    ensures
        parse_ida(seq![lower_hex()[hi], lower_hex()[lo]]) == Some(seq![Some((16 * hi + lo) as u8)]),
        parse_ida(seq![upper_hex()[hi], upper_hex()[lo]]) == Some(seq![Some((16 * hi + lo) as u8)]),
{
    law_hex_digit_standard(' ');
    assert(hex_digit(' ') is None);
    assert(hex_digit('?') is None);
    let a = seq![lower_hex()[hi], lower_hex()[lo]];
    let b = seq![upper_hex()[hi], upper_hex()[lo]];
    assert(hex_digit(a[0]) == Some(hi as u8));
    assert(hex_digit(a[1]) == Some(lo as u8));
    assert(hex_digit(b[0]) == Some(hi as u8));
    assert(hex_digit(b[1]) == Some(lo as u8));
    assert(a.skip(2) =~= Seq::<char>::empty());
    assert(b.skip(2) =~= Seq::<char>::empty());
    assert(parse_ida(Seq::<char>::empty()) == Some(Seq::<Option<u8>>::empty()));
    assert(seq![Some((16 * hi + lo) as u8)] + Seq::<Option<u8>>::empty() =~= seq![Some((16 * hi + lo) as u8)]);
    assert((hi as u8 * 16 + lo as u8) as u8 == (16 * hi + lo) as u8);
}

/// Spaces between entries are skipped, and `??` or a lone `?` is one
/// wildcard entry, matching any byte.
pub proof fn law_pattern_spaces_and_wildcards(rest: Seq<char>)
    ensures
        parse_ida(seq![' '] + rest) == parse_ida(rest),
        parse_ida(seq!['?', '?'] + rest) == match parse_ida(rest) {
            Some(r) => Some(seq![None::<u8>] + r),
            None => None,
        },
        (rest.len() == 0 || rest[0] != '?') ==> parse_ida(seq!['?'] + rest) == match parse_ida(rest) {
            Some(r) => Some(seq![None::<u8>] + r),
            None => None,
        },
{
    assert((seq![' '] + rest).drop_first() =~= rest);
    assert((seq!['?', '?'] + rest).skip(2) =~= rest);
    assert((seq!['?'] + rest).drop_first() =~= rest);
}

/// `n` rounded up to a multiple of the pattern alignment.
pub open spec fn padded_len(n: nat) -> nat {
    ((n + 31) / 32 * 32) as nat
}

/// The data byte a pattern entry stands for (0 for a wildcard).
pub open spec fn entry_data(e: Option<u8>) -> u8 {
    match e {
        Some(b) => b,
        None => 0u8,
    }
}

/// The mask byte a pattern entry stands for (0xFF for a fixed byte, 0 for a wildcard).
pub open spec fn entry_mask(e: Option<u8>) -> u8 {
    match e {
        Some(_) => 0xFFu8,
        None => 0u8,
    }
}

/// The data bytes of a pattern made of `entries`, padded with zeroes.
pub open spec fn padded_data(entries: Seq<Option<u8>>) -> Seq<u8> {
    Seq::new(
        padded_len(entries.len()),
        |i: int|
            if i < entries.len() {
                entry_data(entries[i])
            } else {
                0u8
            },
    )
}

/// The mask bytes of a pattern made of `entries`, padded with zeroes.
pub open spec fn padded_mask(entries: Seq<Option<u8>>) -> Seq<u8> {
    Seq::new(
        padded_len(entries.len()),
        |i: int|
            if i < entries.len() {
                entry_mask(entries[i])
            } else {
                0u8
            },
    )
}

/// `bytes` padded with zeroes to a multiple of the pattern alignment.
pub open spec fn padded(bytes: Seq<u8>) -> Seq<u8> {
    Seq::new(
        padded_len(bytes.len()),
        |i: int|
            if i < bytes.len() {
                bytes[i]
            } else {
                0u8
            },
    )
}

/// The mask entry for one mask character, if it is a valid one.
pub open spec fn mask_char(c: u8) -> Option<u8> {
    if c == 'x' as u8 {
        Some(0xFFu8)
    } else if c == '?' as u8 {
        Some(0u8)
    } else {
        None
    }
}

/// An IDA-style binary pattern. `data` and `mask` have equal, padded length;
/// a mask byte of zero means "matches anything".
#[derive(Debug)]
pub struct Pattern {
    /// the pattern bytes, padded with zeroes
    pub data: AlignedBytes,
    /// the mask bytes, 0xFF for a byte that must match and 0 for a wildcard
    pub mask: AlignedBytes,
    /// the number of pattern entries before padding
    pub unpadded_size: usize,
}

impl Pattern {
    /// The well-formedness of a pattern: data and mask share the padded length,
    /// the padding holds zeroes, and every mask byte is 0 or 0xFF.
    pub open spec fn wf(&self) -> bool {
        &&& self.data@.len() == self.mask@.len()
        &&& self.data@.len() == padded_len(self.unpadded_size as nat)
        &&& forall|i: int|
            self.unpadded_size <= i < self.data@.len() ==> self.data@[i] == 0 && self.mask@[i] == 0
        &&& forall|i: int| 0 <= i < self.mask@.len() ==> (self.mask@[i] == 0 || self.mask@[i] == 0xFF)
    }

    /// The pattern describes exactly the entries `entries`, padded.
    pub open spec fn denotes(&self, entries: Seq<Option<u8>>) -> bool {
        &&& self.wf()
        &&& self.unpadded_size == entries.len()
        &&& self.data@ == padded_data(entries)
        &&& self.mask@ == padded_mask(entries)
    }

    /// The pattern holds exactly `data` and `mask`, both padded with zeroes.
    pub open spec fn stores(&self, data: Seq<u8>, mask: Seq<u8>) -> bool {
        &&& self.wf()
        &&& self.unpadded_size == data.len()
        &&& self.data@ == padded(data)
        &&& self.mask@ == padded(mask)
    }

    /// Pads the data and mask bytes and stores them.
    fn from_parts(data: Vec<u8>, mask: Vec<u8>) -> (r: Pattern)
        requires
            mask@.len() == data@.len(),
            data@.len() + 62 <= max_layout_size(),
            forall|i: int| 0 <= i < mask@.len() ==> (mask@[i] == 0 || mask@[i] == 0xFF),
        ensures
            r.stores(data@, mask@),
    {
        let ghost d0 = data@;
        let ghost m0 = mask@;
        let unpadded_size = data.len();
        let count = (unpadded_size + 31) / PATTERN_ALIGN;
        assert(count * 32 <= unpadded_size + 31) by (nonlinear_arith)
            requires count == (unpadded_size + 31) / 32;
        assert(count * 32 >= unpadded_size) by (nonlinear_arith)
            requires count == (unpadded_size + 31) / 32;
        let padded_size = count * PATTERN_ALIGN;
        let mut data = data;
        let mut mask = mask;
        while data.len() < padded_size
            invariant
                unpadded_size <= data@.len() <= padded_size,
                data@.len() == mask@.len(),
                d0.len() == unpadded_size,
                m0.len() == unpadded_size,
                forall|i: int| 0 <= i < unpadded_size ==> data@[i] == d0[i] && mask@[i] == m0[i],
                forall|i: int| unpadded_size <= i < data@.len() ==> data@[i] == 0 && mask@[i] == 0,
            decreases padded_size - data@.len(),
        {
            data.push(0);
            mask.push(0);
        }
        proof {
            assert forall|i: int| 0 <= i < mask@.len() implies (mask@[i] == 0 || mask@[i] == 0xFF) by {
                if i < unpadded_size {
                    assert(mask@[i] == m0[i]);
                }
            }
        }
        proof {
            lemma_pow2_32();
        }
        assert(data@ =~= padded(d0));
        assert(mask@ =~= padded(m0));
        let data_bytes = AlignedBytes::from_valid(data, PATTERN_ALIGN);
        let mask_bytes = AlignedBytes::from_valid(mask, PATTERN_ALIGN);
        Pattern { data: data_bytes, mask: mask_bytes, unpadded_size }
    }

    /// Pads the entries and stores them.
    fn from_entries(data: Vec<u8>, mask: Vec<u8>, Ghost(entries): Ghost<Seq<Option<u8>>>) -> (r: Pattern)
        requires
            data@.len() == entries.len(),
            mask@.len() == entries.len(),
            entries.len() + 62 <= max_layout_size(),
            forall|i: int| 0 <= i < entries.len() ==> data@[i] == entry_data(entries[i]) && mask@[i]
                == entry_mask(entries[i]),
        ensures
            r.denotes(entries),
    {
        let ghost d0 = data@;
        let ghost m0 = mask@;
        let r = Pattern::from_parts(data, mask);
        assert(padded(d0) =~= padded_data(entries));
        assert(padded(m0) =~= padded_mask(entries));
        r
    }

    /// Create a new IDA-style [`Pattern`] instance
    ///
    /// # Example
    ///
    /// ```rust,ignore
    /// Pattern::from_str("48 89 ?? 24 ?? 48 89 6c");
    /// Pattern::from_str("48 89 ? 24 ? 48 89 6c");
    /// ```
    pub fn from_str(pattern: &str) -> (r: Result<Pattern, PatternError>)
        requires
            pattern@.len() + 62 <= max_layout_size(),
        ensures
            r is Ok <==> parse_ida(pattern@) is Some,
            r matches Ok(p) ==> p.denotes(parse_ida(pattern@)->0),
            r matches Err(e) ==> e == PatternError::Pat,
    {
        let chars = str_chars(pattern);
        let n = chars.len();
        let mut data: Vec<u8> = Vec::new();
        let mut mask: Vec<u8> = Vec::new();
        let ghost s = chars@;
        let ghost mut acc: Seq<Option<u8>> = Seq::empty();
        let mut i: usize = 0;
        proof {
            assert(s.skip(0) =~= s);
        }
        while i < n
            invariant
                s == chars@,
                s == pattern@,
                n == s.len(),
                i <= n,
                data@.len() == acc.len(),
                mask@.len() == acc.len(),
                acc.len() <= i,
                forall|k: int| 0 <= k < acc.len() ==> data@[k] == entry_data(acc[k]) && mask@[k]
                    == entry_mask(acc[k]),
                parse_ida(s) == match parse_ida(s.skip(i as int)) {
                    Some(r) => Some(acc + r),
                    None => None::<Seq<Option<u8>>>,
                },
            decreases n - i,
        {
            let sym = chars[i];
            let ghost t = s.skip(i as int);
            assert(t[0] == sym);
            if sym == ' ' {
                assert(t.drop_first() =~= s.skip(i + 1));
                i = i + 1;
            } else if sym == '?' {
                proof {
                    let ghost_entry: Seq<Option<u8>> = seq![None::<u8>];
                    if i + 1 < n && s[i + 1] == '?' {
                        assert(t.skip(2) =~= s.skip(i + 2));
                    } else {
                        assert(t.drop_first() =~= s.skip(i + 1));
                    }
                    if let Some(r) = parse_ida(t) {
                        assert(acc + r =~= acc.push(None::<u8>) + r.drop_first());
                    }
                    assert forall|r: Seq<Option<u8>>| #![auto] acc + (ghost_entry + r) =~= acc.push(None::<u8>) + r by {}
                    acc = acc.push(None::<u8>);
                }
                data.push(0);
                mask.push(0);
                if i + 1 < n && chars[i + 1] == '?' {
                    i = i + 2;
                } else {
                    i = i + 1;
                }
            } else {
                if i + 1 >= n {
                    return Err(PatternError::Pat);
                }
                let next = chars[i + 1];
                let hi = hex_value(sym);
                let lo = hex_value(next);
                assert(t[1] == next);
                match (hi, lo) {
                    (Some(h), Some(l)) => {
                        let byte: u8 = h * 16 + l;
                        proof {
                            assert(t.skip(2) =~= s.skip(i + 2));
                            let ghost_entry: Seq<Option<u8>> = seq![Some(byte)];
                            assert forall|r: Seq<Option<u8>>| #![auto] acc + (ghost_entry + r) =~= acc.push(Some(byte)) + r by {}
                            acc = acc.push(Some(byte));
                        }
                        data.push(byte);
                        mask.push(0xFF);
                        i = i + 2;
                    },
                    _ => {
                        return Err(PatternError::Pat);
                    },
                }
            }
        }
        proof {
            assert(s.skip(n as int) =~= Seq::<char>::empty());
            assert(acc + Seq::<Option<u8>>::empty() =~= acc);
        }
        Ok(Pattern::from_entries(data, mask, Ghost(acc)))
    }

    /// Create a pattern that matches exactly the given bytes.
    pub fn from_data(data: &[u8]) -> (r: Pattern)
        requires
            data@.len() + 62 <= max_layout_size(),
        ensures
            r.denotes(data@.map_values(|b: u8| Some(b))),
    {
        let ghost entries = data@.map_values(|b: u8| Some(b));
        let mut bytes: Vec<u8> = Vec::new();
        let mut mask: Vec<u8> = Vec::new();
        let mut i: usize = 0;
        while i < data.len()
            invariant
                i <= data@.len(),
                bytes@.len() == i,
                mask@.len() == i,
                entries == data@.map_values(|b: u8| Some(b)),
                forall|k: int| 0 <= k < i ==> bytes@[k] == entry_data(entries[k]) && mask@[k]
                    == entry_mask(entries[k]),
            decreases data@.len() - i,
        {
            bytes.push(data[i]);
            mask.push(0xFF);
            i = i + 1;
        }
        Pattern::from_entries(bytes, mask, Ghost(entries))
    }

    /// Create a pattern from bytes and a mask string of `x` (must match) and
    /// `?` (wildcard), one mask character per byte. The data bytes are kept
    /// as given, also under a wildcard.
    pub fn from_data_with_mask(data: &[u8], mask: &str) -> (r: Result<Pattern, PatternError>)
        requires
            data@.len() + 62 <= max_layout_size(),
        ensures
            mask.spec_bytes().len() != data@.len() ==> r == Err::<Pattern, PatternError>(
                PatternError::MaskLen,
            ),
            mask.spec_bytes().len() == data@.len() && !(forall|i: int|
                0 <= i < data@.len() ==> (#[trigger] mask_char(mask.spec_bytes()[i])) is Some) ==> r
                == Err::<Pattern, PatternError>(PatternError::Mask),
            mask.spec_bytes().len() == data@.len() && (forall|i: int|
                0 <= i < data@.len() ==> (#[trigger] mask_char(mask.spec_bytes()[i])) is Some) ==> (r matches Ok(p)
                && p.stores(data@, Seq::new(data@.len(), |i: int| mask_char(mask.spec_bytes()[i])->0))),
    {
        let mbytes = mask.as_bytes();
        if mbytes.len() != data.len() {
            return Err(PatternError::MaskLen);
        }
        let mut bytes: Vec<u8> = Vec::new();
        let mut mask_: Vec<u8> = Vec::new();
        let mut i: usize = 0;
        while i < data.len()
            invariant
                i <= data@.len(),
                mbytes@.len() == data@.len(),
                mbytes@ == mask.spec_bytes(),
                bytes@ == data@.take(i as int),
                mask_@.len() == i,
                forall|k: int| 0 <= k < i ==> (#[trigger] mask_char(mbytes@[k])) is Some,
                forall|k: int| 0 <= k < i ==> mask_@[k] == mask_char(mbytes@[k])->0,
            decreases data@.len() - i,
        {
            let c = mbytes[i];
            if c == 0x78 {
                mask_.push(0xFF);
            } else if c == 0x3f {
                mask_.push(0);
            } else {
                assert(mask_char(mbytes@[i as int]) is None);
                return Err(PatternError::Mask);
            }
            bytes.push(data[i]);
            i = i + 1;
            assert(bytes@ =~= data@.take(i as int));
        }
        assert(bytes@ =~= data@);
        assert(mask_@ =~= Seq::new(data@.len(), |i: int| mask_char(mask.spec_bytes()[i])->0));
        Ok(Pattern::from_parts(bytes, mask_))
    }
}

/// The value of the hexadecimal digit `c`, if it is one.
pub fn hex_value(c: char) -> (r: Option<u8>)
    ensures
        r == hex_digit(c),
{
    if '0' <= c && c <= '9' {
        Some((c as u32 - '0' as u32) as u8)
    } else if 'a' <= c && c <= 'f' {
        Some((c as u32 - 'a' as u32 + 10) as u8)
    } else if 'A' <= c && c <= 'F' {
        Some((c as u32 - 'A' as u32 + 10) as u8)
    } else {
        None
    }
}

/// The characters of a string, in order.
pub fn str_chars(s: &str) -> (r: Vec<char>)
    ensures
        r@ == s@,
{
    let n = s.unicode_len();
    let mut v: Vec<char> = Vec::new();
    let mut i: usize = 0;
    while i < n
        invariant
            n == s@.len(),
            i <= n,
            v@ == s@.take(i as int),
        decreases n - i,
    {
        v.push(s.get_char(i));
        i = i + 1;
        assert(v@ =~= s@.take(i as int));
    }
    assert(s@.take(n as int) =~= s@);
    v
}

} // verus!
