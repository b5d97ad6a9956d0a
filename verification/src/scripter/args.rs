//! The argument block handed to a native call: its layout (each argument at
//! the offset a C struct would give it), filling it from script values, and
//! reading the arguments back out of it.

use vstd::prelude::*;

use vstd::utf8::{char_is_scalar, char_u32_cast};
use crate::search::{first_index, lemma_first_index};
use crate::le::{
    le_bytes, le_value, lemma_le_bytes_len, lemma_le_roundtrip, lemma_pow256_values, read_le, write_le,
    pow256,
};

verus! {

/// A native type an argument or a return value can have
#[derive(Debug, Clone, Copy, PartialEq, Eq, Structural)]
pub enum Type {
    /// no value
    Void,
    /// 32-bit float
    F32,
    /// 64-bit float
    F64,
    /// unsigned 8-bit
    U8,
    /// unsigned 16-bit
    U16,
    /// unsigned 32-bit
    U32,
    /// unsigned 64-bit
    U64,
    /// unsigned 128-bit
    U128,
    /// signed 8-bit
    I8,
    /// signed 16-bit
    I16,
    /// signed 32-bit
    I32,
    /// signed 64-bit
    I64,
    /// signed 128-bit
    I128,
    /// a pointer
    Ptr,
    /// a one-byte boolean
    Bool,
    /// a pointer to a zero-terminated byte string
    CStr,
    /// a pointer to a UTF-16 string
    WStr,
    /// a one-byte character
    Char,
    /// a UTF-16 code unit
    WChar,
}

/// The size in bytes of a value of the type; a type is aligned to its size.
pub open spec fn type_size(t: Type) -> nat {
    match t {
        Type::Void => 0,
        Type::U8 | Type::I8 | Type::Bool | Type::Char => 1,
        Type::U16 | Type::I16 | Type::WChar => 2,
        Type::F32 | Type::U32 | Type::I32 => 4,
        Type::F64 | Type::U64 | Type::I64 | Type::Ptr | Type::CStr | Type::WStr => 8,
        Type::U128 | Type::I128 => 16,
    }
}

impl Type {
    /// The size in bytes of a value of this type.
    pub fn size(&self) -> (r: usize)
        ensures
            r == type_size(*self),
    {
        match self {
            Type::Void => 0,
            Type::U8 | Type::I8 | Type::Bool | Type::Char => 1,
            Type::U16 | Type::I16 | Type::WChar => 2,
            Type::F32 | Type::U32 | Type::I32 => 4,
            Type::F64 | Type::U64 | Type::I64 | Type::Ptr | Type::CStr | Type::WStr => 8,
            Type::U128 | Type::I128 => 16,
        }
    }
}

/// `x` rounded up to a multiple of `a`.
pub open spec fn round_up(x: nat, a: nat) -> nat {
    if x % a == 0 {
        x
    } else {
        (x - x % a + a) as nat
    }
}

/// The struct layout of the fields so far: its size (before the final
/// padding), its alignment and each field's offset; `None` where a field
/// has no size or the struct grows past what a layout can hold.
pub open spec fn fields_layout(args: Seq<Type>) -> Option<(nat, nat, Seq<nat>)>
    decreases args.len(),
{
    if args.len() == 0 {
        Some((0, 1, Seq::empty()))
    } else {
        match fields_layout(args.drop_last()) {
            None => None,
            Some((size, align, offsets)) => {
                let f = type_size(args.last());
                let offset = round_up(size, f);
                let new_size = offset + f;
                let new_align = if align < f { f } else { align };
                if f == 0 || new_size + (new_align - 1) > isize::MAX {
                    None
                } else {
                    Some((new_size, new_align, offsets.push(offset)))
                }
            },
        }
    }
}

/// The layout of an argument block: its size (padded to its alignment),
/// its alignment and each argument's offset; `None` for no arguments, a
/// `Void` argument or a block too large.
pub open spec fn arg_layout(args: Seq<Type>) -> Option<(nat, nat, Seq<nat>)> {
    if args.len() == 0 {
        None
    } else {
        match fields_layout(args) {
            None => None,
            Some((size, align, offsets)) => Some((round_up(size, align), align, offsets)),
        }
    }
}

/// Facts of every struct layout: the alignment is one of the sizes, each
/// offset is a multiple of its field's size, and the fields lie in order,
/// without overlapping, inside the size.
pub open spec fn layout_facts(args: Seq<Type>, size: nat, align: nat, offsets: Seq<nat>) -> bool {
    &&& offsets.len() == args.len()
    &&& align == 1 || align == 2 || align == 4 || align == 8 || align == 16
    &&& size + (align - 1) <= isize::MAX
    &&& forall|i: int| 0 <= i < args.len() ==> type_size(#[trigger] args[i]) > 0
    &&& forall|i: int|
        0 <= i < args.len() ==> (#[trigger] offsets[i]) % type_size(args[i]) == 0 && offsets[i] + type_size(
            args[i],
        ) <= size && type_size(args[i]) <= align
    &&& forall|i: int, j: int|
        0 <= i < j < args.len() ==> #[trigger] offsets[i] + type_size(args[i]) <= #[trigger] offsets[j]
}

/// The layout computed field by field satisfies the layout facts.
pub proof fn lemma_fields_layout(args: Seq<Type>)
    ensures
        fields_layout(args) matches Some((size, align, offsets)) ==> layout_facts(args, size, align, offsets),
    decreases args.len(),
{
    if args.len() > 0 {
        lemma_fields_layout(args.drop_last());
        match fields_layout(args.drop_last()) {
            None => {},
            Some((size, align, offsets)) => {
                let f = type_size(args.last());
                let offset = round_up(size, f);
                if f > 0 {
                    assert(offset % f == 0 && offset >= size) by (nonlinear_arith)
                        requires
                            f > 0,
                            offset == (if size % f == 0 { size as int } else { size - size % f + f }),
                    {
                        lemma_round_up(size, f);
                    }
                }
                let prev = args.drop_last();
                assert forall|i: int| 0 <= i < prev.len() implies #[trigger] args[i] == prev[i] by {}
            },
        }
    }
}

/// Rounding up gives a multiple at least as large, less than one step more.
pub proof fn lemma_round_up(x: nat, a: nat)
    requires
        a > 0,
    ensures
        round_up(x, a) % a == 0,
        x <= round_up(x, a) < x + a,
        x % a < a,
{
    assert(x % a < a) by (nonlinear_arith)
        requires a > 0;
    if x % a != 0 {
        assert((x - x % a + a) % (a as int) == 0) by (nonlinear_arith)
            requires a > 0, x % a < a;
    }
}

/// A layout that fails for a prefix of the fields fails for all of them.
pub proof fn lemma_fields_layout_fails(args: Seq<Type>, k: int)
    requires
        0 <= k <= args.len(),
        fields_layout(args.take(k)) is None,
    ensures
        fields_layout(args) is None,
    decreases args.len(),
{
    if k < args.len() {
        assert(args.drop_last().take(k) =~= args.take(k));
        lemma_fields_layout_fails(args.drop_last(), k);
    } else {
        assert(args.take(k) =~= args);
    }
}

/// `x` rounded up to a multiple of `a`, for `a` one of the type sizes and
/// a result that fits.
fn round_up_exec(x: usize, a: usize) -> (r: usize)
    requires
        a > 0,
        x + a <= usize::MAX,
    ensures
        r == round_up(x as nat, a as nat),
{
    proof {
        lemma_round_up(x as nat, a as nat);
    }
    if x % a == 0 {
        x
    } else {
        x + (a - x % a)
    }
}

/// Get the layout and offsets for an argument list: size, alignment and
/// the offset of each argument.
pub fn get_layout(args: &[Type]) -> (r: Option<(usize, usize, Vec<usize>)>)
    ensures
        match arg_layout(args@) {
            Some((size, align, offsets)) => r matches Some((s, a, o)) && s == size && a == align && o@.len()
                == offsets.len() && forall|i: int| 0 <= i < offsets.len() ==> o@[i] == offsets[i],
            None => r is None,
        },
{
    if args.len() == 0 {
        return None;
    }
    let mut size: usize = 0;
    let mut align: usize = 1;
    let mut offsets: Vec<usize> = Vec::new();
    let mut k: usize = 0;
    while k < args.len()
        invariant
            k <= args@.len(),
            fields_layout(args@.take(k as int)) matches Some((fs, fa, fo)) && fs == size && fa == align
                && fo.len() == offsets@.len() && forall|i: int| 0 <= i < fo.len() ==> offsets@[i] == fo[i],
            size + (align - 1) <= isize::MAX,
            align == 1 || align == 2 || align == 4 || align == 8 || align == 16,
        decreases args@.len() - k,
    {
        proof {
            assert(args@.take(k + 1).drop_last() =~= args@.take(k as int));
            assert(args@.take(k + 1).last() == args@[k as int]);
        }
        let f = args[k].size();
        if f == 0 {
            proof {
                lemma_fields_layout_fails(args@, k + 1);
            }
            return None;
        }
        let offset = round_up_exec(size, f);
        proof {
            lemma_round_up(size as nat, f as nat);
        }
        let new_align = if align < f { f } else { align };
        assert(isize::MAX >= 0x7fff_ffff);
        if offset > (isize::MAX as usize) - f - (new_align - 1) {
            proof {
                lemma_fields_layout_fails(args@, k + 1);
            }
            return None;
        }
        size = offset + f;
        align = new_align;
        offsets.push(offset);
        k = k + 1;
    }
    proof {
        assert(args@.take(k as int) =~= args@);
        lemma_fields_layout(args@);
        lemma_round_up(size as nat, align as nat);
    }
    let total = round_up_exec(size, align);
    Some((total, align, offsets))
}

/// An argument read out of an argument block. Floats are carried by their
/// bits.
#[derive(Debug, Clone, Copy, PartialEq, Eq, Structural)]
pub enum Arg {
    /// the bits of a 32-bit float
    F32(u32),
    /// the bits of a 64-bit float
    F64(u64),
    /// unsigned 8-bit
    U8(u8),
    /// unsigned 16-bit
    U16(u16),
    /// unsigned 32-bit
    U32(u32),
    /// unsigned 64-bit
    U64(u64),
    /// unsigned 128-bit
    U128(u128),
    /// signed 8-bit
    I8(i8),
    /// signed 16-bit
    I16(i16),
    /// signed 32-bit
    I32(i32),
    /// signed 64-bit
    I64(i64),
    /// signed 128-bit
    I128(i128),
    /// a pointer
    Ptr(usize),
    /// a boolean
    Bool(bool),
    /// a pointer to a zero-terminated byte string
    CStr(usize),
    /// a pointer to a UTF-16 string (length unknown)
    WStr(usize),
    /// a one-byte character
    Char(char),
    /// a UTF-16 character
    WChar(char),
}

/// A script value offered as an argument, by the conversions it admits
#[derive(Debug)]
pub struct ArgValue {
    /// as a float: its 64-bit bits, and the bits of it rounded to 32 bits
    pub float: Option<(u64, u32)>,
    /// as an integer: whether it is negative, and its magnitude
    pub int: Option<(bool, u128)>,
    /// as a boolean
    pub boolean: Option<bool>,
    /// as a string
    pub text: Option<String>,
}

/// Why a value cannot fill an argument
#[derive(Debug, Clone, Copy, PartialEq, Eq, Structural)]
pub enum FillFault {
    /// void cannot be an argument
    Void,
    /// the value does not convert to the argument's type, or does not fit it
    Convert,
    /// a character argument was given an empty string
    EmptyString,
    /// the character does not fit in one unit of the argument's encoding
    TooWide,
}

/// An error filling an argument block
#[derive(Debug, Clone, Copy, PartialEq, Eq, Structural)]
pub enum FillError {
    /// incorrect number of args
    ArgCount,
    /// the argument at `index` could not be filled
    Arg { index: usize, fault: FillFault },
}

/// The integer a sign and a magnitude denote.
pub open spec fn int_value(v: (bool, u128)) -> int {
    if v.0 {
        -(v.1 as int)
    } else {
        v.1 as int
    }
}

/// `i` is an unsigned integer of `n` bytes.
pub open spec fn unsigned_fits(i: int, n: nat) -> bool {
    0 <= i < pow256(n)
}

/// `i` is a signed integer of `n` bytes.
pub open spec fn signed_fits(i: int, n: nat) -> bool {
    -(pow256(n) / 2) <= i < pow256(n) / 2
}

/// The two's complement of `i` in `n` bytes.
pub open spec fn twos_complement(i: int, n: nat) -> nat {
    if i < 0 {
        (i + pow256(n)) as nat
    } else {
        i as nat
    }
}

/// The signed integer `n` bytes of two's complement `v` denote.
pub open spec fn signed_of(v: nat, n: nat) -> int {
    if v >= pow256(n) / 2 {
        v - pow256(n)
    } else {
        v as int
    }
}

/// The type is one of the unsigned integers.
pub open spec fn is_unsigned(t: Type) -> bool {
    t == Type::U8 || t == Type::U16 || t == Type::U32 || t == Type::U64 || t == Type::U128
}

/// The type is one of the signed integers.
pub open spec fn is_signed(t: Type) -> bool {
    t == Type::I8 || t == Type::I16 || t == Type::I32 || t == Type::I64 || t == Type::I128
}

/// The type is passed as an address.
pub open spec fn is_address(t: Type) -> bool {
    t == Type::Ptr || t == Type::CStr || t == Type::WStr
}

/// The bytes an argument of type `t` holds for value `v`, or why it cannot.
pub open spec fn encode(t: Type, v: ArgValue) -> Result<Seq<u8>, FillFault> {
    let n = type_size(t);
    if t == Type::Void {
        Err(FillFault::Void)
    } else if t == Type::F32 || t == Type::F64 {
        match v.float {
            Some((b64, b32)) => Ok(if t == Type::F32 { le_bytes(b32 as nat, 4) } else { le_bytes(b64 as nat, 8) }),
            None => Err(FillFault::Convert),
        }
    } else if is_unsigned(t) || is_signed(t) || is_address(t) {
        match v.int {
            Some(x) => {
                let i = int_value(x);
                if is_unsigned(t) && unsigned_fits(i, n) {
                    Ok(le_bytes(i as nat, n))
                } else if is_signed(t) && signed_fits(i, n) {
                    Ok(le_bytes(twos_complement(i, n), n))
                } else if is_address(t) && 0 <= i <= usize::MAX {
                    Ok(le_bytes(i as nat, n))
                } else {
                    Err(FillFault::Convert)
                }
            },
            None => Err(FillFault::Convert),
        }
    } else if t == Type::Bool {
        match v.boolean {
            Some(b) => Ok(seq![if b { 1u8 } else { 0u8 }]),
            None => Err(FillFault::Convert),
        }
    } else {
        match v.text {
            Some(s) => if s@.len() == 0 {
                Err(FillFault::EmptyString)
            } else if t == Type::Char && (s@[0] as u32) < 0x80 {
                Ok(seq![(s@[0] as u32) as u8])
            } else if t == Type::WChar && (s@[0] as u32) <= 0xFFFF {
                Ok(le_bytes((s@[0] as u32) as nat, 2))
            } else {
                Err(FillFault::TooWide)
            },
            None => Err(FillFault::Convert),
        }
    }
}

/// The code point is a UTF-16 surrogate, which no character has.
pub open spec fn is_surrogate(v: nat) -> bool {
    0xD800 <= v <= 0xDFFF
}

/// The argument of type `t` that bytes `b` hold; `None` for `Void`, and
/// for a UTF-16 surrogate, which is no character.
pub open spec fn decode(t: Type, b: Seq<u8>) -> Option<Arg> {
    decode_of_value(t, le_value(b))
}

/// The argument of type `t` whose bytes have value `v`.
pub open spec fn decode_of_value(t: Type, v: nat) -> Option<Arg> {
    match t {
        Type::Void => None,
        Type::F32 => Some(Arg::F32(v as u32)),
        Type::F64 => Some(Arg::F64(v as u64)),
        Type::U8 => Some(Arg::U8(v as u8)),
        Type::U16 => Some(Arg::U16(v as u16)),
        Type::U32 => Some(Arg::U32(v as u32)),
        Type::U64 => Some(Arg::U64(v as u64)),
        Type::U128 => Some(Arg::U128(v as u128)),
        Type::I8 => Some(Arg::I8(signed_of(v, 1) as i8)),
        Type::I16 => Some(Arg::I16(signed_of(v, 2) as i16)),
        Type::I32 => Some(Arg::I32(signed_of(v, 4) as i32)),
        Type::I64 => Some(Arg::I64(signed_of(v, 8) as i64)),
        Type::I128 => Some(Arg::I128(signed_of(v, 16) as i128)),
        Type::Ptr => Some(Arg::Ptr(v as usize)),
        Type::Bool => Some(Arg::Bool(v != 0)),
        Type::CStr => Some(Arg::CStr(v as usize)),
        Type::WStr => Some(Arg::WStr(v as usize)),
        Type::Char => Some(Arg::Char((v as u32) as char)),
        Type::WChar => if is_surrogate(v) {
            None
        } else {
            Some(Arg::WChar((v as u32) as char))
        },
    }
}

/// The argument a value fills an argument of type `t` with.
pub open spec fn expected_arg(t: Type, v: ArgValue) -> Arg {
    let i = int_value(v.int.unwrap());
    match t {
        Type::F32 => Arg::F32(v.float.unwrap().1),
        Type::F64 => Arg::F64(v.float.unwrap().0),
        Type::U8 => Arg::U8(i as u8),
        Type::U16 => Arg::U16(i as u16),
        Type::U32 => Arg::U32(i as u32),
        Type::U64 => Arg::U64(i as u64),
        Type::U128 => Arg::U128(i as u128),
        Type::I8 => Arg::I8(i as i8),
        Type::I16 => Arg::I16(i as i16),
        Type::I32 => Arg::I32(i as i32),
        Type::I64 => Arg::I64(i as i64),
        Type::I128 => Arg::I128(i as i128),
        Type::Ptr => Arg::Ptr(i as usize),
        Type::CStr => Arg::CStr(i as usize),
        Type::WStr => Arg::WStr(i as usize),
        Type::Bool => Arg::Bool(v.boolean.unwrap()),
        Type::Char => Arg::Char(v.text.unwrap()@[0]),
        Type::WChar => Arg::WChar(v.text.unwrap()@[0]),
        Type::Void => Arg::Bool(false),
    }
}

/// A `Bool` argument is one byte, as a C or Rust `bool` is: `true` is
/// written as 1 and `false` as 0; reading a byte gives `false` for 0 and
/// `true` for 1 (and for any other non-zero byte).
pub proof fn law_bool_bytes(v: ArgValue, x: u8)
    ensures
        v.boolean == Some(true) ==> encode(Type::Bool, v) == Ok::<Seq<u8>, FillFault>(seq![1u8]),
        v.boolean == Some(false) ==> encode(Type::Bool, v) == Ok::<Seq<u8>, FillFault>(seq![0u8]),
        decode(Type::Bool, seq![0u8]) == Some(Arg::Bool(false)),
        decode(Type::Bool, seq![1u8]) == Some(Arg::Bool(true)),
        x != 0 ==> decode(Type::Bool, seq![x]) == Some(Arg::Bool(true)),
        type_size(Type::Bool) == 1,
{
    reveal_with_fuel(le_value, 2);
    assert(seq![0u8].drop_first() =~= Seq::<u8>::empty());
    assert(seq![1u8].drop_first() =~= Seq::<u8>::empty());
    assert(seq![x].drop_first() =~= Seq::<u8>::empty());
    assert(le_value(seq![0u8]) == 0);
    assert(le_value(seq![1u8]) == 1);
    assert(le_value(seq![x]) == x);
}

/// Reading an argument back out of the bytes it was filled with gives the
/// argument the value stands for.
pub proof fn lemma_encode_decode(t: Type, v: ArgValue)
    requires
        encode(t, v) is Ok,
    ensures
        decode(t, encode(t, v)->Ok_0) == Some(expected_arg(t, v)),
        encode(t, v)->Ok_0.len() == type_size(t),
{
    lemma_pow256_values();
    let n = type_size(t);
    let bs = encode(t, v)->Ok_0;
    if t == Type::F32 || t == Type::F64 {
        let (b64, b32) = v.float.unwrap();
        if t == Type::F32 {
            lemma_le_roundtrip(b32 as nat, 4);
            lemma_le_bytes_len(b32 as nat, 4);
        } else {
            lemma_le_roundtrip(b64 as nat, 8);
            lemma_le_bytes_len(b64 as nat, 8);
        }
        assert(decode(t, bs) == Some(expected_arg(t, v)));
    } else if is_unsigned(t) || is_signed(t) || is_address(t) {
        let i = int_value(v.int.unwrap());
        if is_unsigned(t) {
            lemma_le_roundtrip(i as nat, n);
            lemma_le_bytes_len(i as nat, n);
            assert(decode(t, bs) == Some(expected_arg(t, v)));
        } else if is_signed(t) {
            lemma_le_roundtrip(twos_complement(i, n), n);
            lemma_le_bytes_len(twos_complement(i, n), n);
            assert(signed_of(twos_complement(i, n), n) == i);
            assert(decode(t, bs) == Some(expected_arg(t, v)));
        } else {
            lemma_le_roundtrip(i as nat, n);
            lemma_le_bytes_len(i as nat, n);
            assert(decode(t, bs) == Some(expected_arg(t, v)));
        }
    } else if t == Type::Bool {
        let x: u8 = if v.boolean.unwrap() { 1 } else { 0 };
        assert(le_value(seq![x]) == x) by {
            assert(seq![x].drop_first() =~= Seq::<u8>::empty());
            reveal_with_fuel(le_value, 2);
        }
        assert(decode(t, bs) == Some(expected_arg(t, v)));
    } else {
        let c = v.text.unwrap()@[0];
        let code = c as u32;
        if t == Type::Char {
            assert(code < 0x80);
            let x = code as u8;
            assert(le_value(seq![x]) == x) by {
                assert(seq![x].drop_first() =~= Seq::<u8>::empty());
                reveal_with_fuel(le_value, 2);
            }
            char_u32_cast(c, code);
            assert(decode(t, bs) == Some(expected_arg(t, v)));
        } else {
            lemma_le_roundtrip(code as nat, 2);
            lemma_le_bytes_len(code as nat, 2);
            char_u32_cast(c, code);
            char_is_scalar(c);
            assert(decode(t, bs) == Some(expected_arg(t, v)));
        }
    }
}

/// Half the range of an integer of `n` bytes.
fn half_range(n: usize) -> (r: u128)
    requires
        n == 1 || n == 2 || n == 4 || n == 8 || n == 16,
    ensures
        r == pow256(n as nat) / 2,
{
    proof {
        lemma_pow256_values();
    }
    if n == 1 {
        0x80
    } else if n == 2 {
        0x8000
    } else if n == 4 {
        0x8000_0000
    } else if n == 8 {
        0x8000_0000_0000_0000
    } else {
        0x8000_0000_0000_0000_0000_0000_0000_0000
    }
}

/// `char::from_u32` of std: the character with code point `v`, or `None`
/// where `v` is a surrogate or past U+10FFFF, as std documents.
#[verifier::external_body]
fn char_from_u32(v: u32) -> (r: Option<char>)
    ensures
        r == (if v < 0xD800 || (0xE000 <= v && v <= 0x10FFFF) {
            Some(v as char)
        } else {
            None
        }),
{
    char::from_u32(v)
}

/// The bytes of an argument of type `t` for value `v`, as the value of
/// its `n` bytes, or why there are none.
#[verifier::rlimit(40)]
fn encode_value(t: Type, v: &ArgValue) -> (r: Result<(u128, usize), FillFault>)
    ensures
        match encode(t, *v) {
            Ok(bs) => r matches Ok((x, n)) && n == type_size(t) && bs == le_bytes(x as nat, n as nat),
            Err(f) => r == Err::<(u128, usize), FillFault>(f),
        },
{
    proof {
        lemma_pow256_values();
    }
    let n = t.size();
    match t {
        Type::Void => Err(FillFault::Void),
        Type::F32 | Type::F64 => match v.float {
            Some((b64, b32)) => if n == 4 {
                Ok((b32 as u128, n))
            } else {
                Ok((b64 as u128, n))
            },
            None => Err(FillFault::Convert),
        },
        Type::U8 | Type::U16 | Type::U32 | Type::U64 | Type::U128 => match v.int {
            Some((neg, mag)) => {
                let half = half_range(n);
                if (!neg || mag == 0) && (n == 16 || mag < 2 * half) {
                    Ok((mag, n))
                } else {
                    Err(FillFault::Convert)
                }
            },
            None => Err(FillFault::Convert),
        },
        Type::I8 | Type::I16 | Type::I32 | Type::I64 | Type::I128 => match v.int {
            Some((neg, mag)) => {
                let half = half_range(n);
                if !neg || mag == 0 {
                    if mag < half {
                        Ok((mag, n))
                    } else {
                        Err(FillFault::Convert)
                    }
                } else if mag <= half {
                    if n == 16 {
                        Ok((u128::MAX - (mag - 1), n))
                    } else {
                        Ok((2 * half - mag, n))
                    }
                } else {
                    Err(FillFault::Convert)
                }
            },
            None => Err(FillFault::Convert),
        },
        Type::Ptr | Type::CStr | Type::WStr => match v.int {
            Some((neg, mag)) => if (!neg || mag == 0) && mag <= usize::MAX as u128 {
                Ok((mag, n))
            } else {
                Err(FillFault::Convert)
            },
            None => Err(FillFault::Convert),
        },
        Type::Bool => match v.boolean {
            Some(b) => {
                proof {
                    reveal_with_fuel(le_bytes, 2);
                }
                Ok((if b { 1 } else { 0 }, n))
            },
            None => Err(FillFault::Convert),
        },
        Type::Char | Type::WChar => match &v.text {
            Some(s) => {
                if s.as_str().unicode_len() == 0 {
                    Err(FillFault::EmptyString)
                } else {
                    let c = s.as_str().get_char(0);
                    let code = c as u32;
                    if t == Type::Char && code < 0x80 {
                        proof {
                            reveal_with_fuel(le_bytes, 2);
                        }
                        Ok((code as u128, n))
                    } else if t == Type::WChar && code <= 0xFFFF {
                        Ok((code as u128, n))
                    } else {
                        Err(FillFault::TooWide)
                    }
                }
            },
            None => Err(FillFault::Convert),
        },
    }
}

/// The signed integer that `n` bytes of two's complement `x` denote.
fn signed_value(x: u128, n: usize) -> (r: i128)
    requires
        n == 1 || n == 2 || n == 4 || n == 8 || n == 16,
        x < pow256(n as nat),
    ensures
        r == signed_of(x as nat, n as nat),
{
    proof {
        lemma_pow256_values();
    }
    let half = half_range(n);
    if x < half {
        x as i128
    } else if n == 16 {
        let m = u128::MAX - x + 1;
        if m == half {
            i128::MIN
        } else {
            -(m as i128)
        }
    } else {
        (x as i128) - ((2 * half) as i128)
    }
}

/// The argument of type `t` held in the `n` bytes of value `x`.
pub(crate) fn decode_value(t: Type, x: u128) -> (r: Option<Arg>)
    requires
        x < pow256(type_size(t)),
    ensures
        r == decode_of_value(t, x as nat),
{
    proof {
        lemma_pow256_values();
    }
    match t {
        Type::Void => None,
        Type::F32 => Some(Arg::F32(x as u32)),
        Type::F64 => Some(Arg::F64(x as u64)),
        Type::U8 => Some(Arg::U8(x as u8)),
        Type::U16 => Some(Arg::U16(x as u16)),
        Type::U32 => Some(Arg::U32(x as u32)),
        Type::U64 => Some(Arg::U64(x as u64)),
        Type::U128 => Some(Arg::U128(x)),
        Type::I8 => Some(Arg::I8(signed_value(x, 1) as i8)),
        Type::I16 => Some(Arg::I16(signed_value(x, 2) as i16)),
        Type::I32 => Some(Arg::I32(signed_value(x, 4) as i32)),
        Type::I64 => Some(Arg::I64(signed_value(x, 8) as i64)),
        Type::I128 => Some(Arg::I128(signed_value(x, 16))),
        Type::Ptr => Some(Arg::Ptr(x as usize)),
        Type::Bool => Some(Arg::Bool(x != 0)),
        Type::CStr => Some(Arg::CStr(x as usize)),
        Type::WStr => Some(Arg::WStr(x as usize)),
        Type::Char => match char_from_u32(x as u32) {
            Some(c) => Some(Arg::Char(c)),
            None => None,
        },
        Type::WChar => match char_from_u32(x as u32) {
            Some(c) => Some(Arg::WChar(c)),
            None => None,
        },
    }
}

/// The offsets, as integers.
pub open spec fn offsets_nat(o: Seq<usize>) -> Seq<nat> {
    o.map_values(|x: usize| x as nat)
}

/// The layout of an argument list
#[derive(Debug, Clone)]
pub struct ArgLayout {
    args: Vec<Type>,
    offsets: Vec<usize>,
    size: usize,
    align: usize,
}

impl ArgLayout {
    /// The argument types.
    pub closed spec fn spec_args(&self) -> Seq<Type> {
        self.args@
    }

    /// Each argument's offset.
    pub closed spec fn spec_offsets(&self) -> Seq<usize> {
        self.offsets@
    }

    /// The block's size.
    pub closed spec fn spec_size(&self) -> nat {
        self.size as nat
    }

    /// The block's alignment.
    pub closed spec fn spec_align(&self) -> nat {
        self.align as nat
    }

    /// The layout is the one its argument types give.
    pub open spec fn wf(&self) -> bool {
        arg_layout(self.spec_args()) == Some((self.spec_size(), self.spec_align(), offsets_nat(self.spec_offsets())))
    }

    /// The layout for an argument list; `None` for no arguments, a `Void`
    /// argument or a block too large.
    pub fn new(args: &[Type]) -> (r: Option<ArgLayout>)
        ensures
            match r {
                Some(l) => l.wf() && l.spec_args() == args@,
                None => arg_layout(args@) is None,
            },
    {
        match get_layout(args) {
            Some((size, align, offsets)) => {
                let l = ArgLayout { args: vstd::slice::slice_to_vec(args), offsets, size, align };
                assert(offsets_nat(l.offsets@) =~= arg_layout(args@).unwrap().2);
                Some(l)
            },
            None => None,
        }
    }

    /// The block's size.
    pub fn size(&self) -> (r: usize)
        ensures
            r == self.spec_size(),
    {
        self.size
    }

    /// The block's alignment.
    pub fn align(&self) -> (r: usize)
        ensures
            r == self.spec_align(),
    {
        self.align
    }

    /// Each argument's offset.
    pub fn offsets(&self) -> (r: &[usize])
        ensures
            r@ == self.spec_offsets(),
    {
        self.offsets.as_slice()
    }

    /// Reads the arguments, in order, out of a block laid out this way.
    pub fn iter<'a>(&'a self, mem: &'a [u8]) -> (r: ArgLayoutIterator<'a>)
        requires
            self.wf(),
            mem@.len() >= self.spec_size(),
        ensures
            r.wf(),
            r.spec_layout() == *self,
            r.spec_mem() == mem@,
            r.spec_pos() == 0,
    {
        ArgLayoutIterator { layout: self, mem, pos: 0 }
    }
}

/// The bytes of argument `i` in a block.
pub open spec fn arg_bytes(l: ArgLayout, mem: Seq<u8>, i: int) -> Seq<u8> {
    mem.subrange(l.spec_offsets()[i] as int, l.spec_offsets()[i] + type_size(l.spec_args()[i]))
}

/// Reads the arguments of a block one after the other
pub struct ArgLayoutIterator<'a> {
    layout: &'a ArgLayout,
    mem: &'a [u8],
    pos: usize,
}

impl<'a> ArgLayoutIterator<'a> {
    /// The layout read by.
    pub closed spec fn spec_layout(&self) -> ArgLayout {
        *self.layout
    }

    /// The block read.
    pub closed spec fn spec_mem(&self) -> Seq<u8> {
        self.mem@
    }

    /// How many arguments have been asked for.
    pub closed spec fn spec_pos(&self) -> nat {
        self.pos as nat
    }

    /// The layout is well formed and the block holds all of it.
    pub open spec fn wf(&self) -> bool {
        self.spec_layout().wf() && self.spec_mem().len() >= self.spec_layout().spec_size()
    }

    /// The next argument: the one at the current position, read from its
    /// bytes; `None` past the last one (and for a code unit that is no
    /// character).
    pub fn next(&mut self) -> (r: Option<Arg>)
        requires
            old(self).wf(),
        ensures
            final(self).wf(),
            final(self).spec_layout() == old(self).spec_layout(),
            final(self).spec_mem() == old(self).spec_mem(),
            final(self).spec_pos() == if old(self).spec_pos() < usize::MAX {
                old(self).spec_pos() + 1
            } else {
                old(self).spec_pos()
            },
            r == if old(self).spec_pos() < old(self).spec_layout().spec_args().len() {
                decode(
                    old(self).spec_layout().spec_args()[old(self).spec_pos() as int],
                    arg_bytes(old(self).spec_layout(), old(self).spec_mem(), old(self).spec_pos() as int),
                )
            } else {
                None
            },
    {
        let pos = self.pos;
        if self.pos < usize::MAX {
            self.pos = self.pos + 1;
        }
        if pos >= self.layout.args.len() {
            return None;
        }
        proof {
            lemma_fields_layout(self.layout.args@);
            let (fs, fa, fo) = fields_layout(self.layout.args@).unwrap();
            assert(offsets_nat(self.layout.offsets@).len() == self.layout.offsets@.len());
            assert(self.layout.offsets@.len() == self.layout.args@.len());
        }
        let ty = self.layout.args[pos];
        let offset = self.layout.offsets[pos];
        proof {
            let (fs, fa, fo) = fields_layout(self.layout.args@).unwrap();
            assert(offsets_nat(self.layout.offsets@)[pos as int] == offset);
            assert(fo[pos as int] == offset);
            lemma_round_up(fs, fa);
            lemma_pow256_values();
        }
        let n = ty.size();
        let x = read_le(self.mem, offset, n);
        proof {
            crate::le::lemma_le_value_bound(self.mem@.subrange(offset as int, offset + n));
        }
        decode_value(ty, x)
    }
}

/// Memory with `bs` written at `off`.
pub open spec fn write_bytes(mem: Seq<u8>, off: int, bs: Seq<u8>) -> Seq<u8> {
    mem.subrange(0, off) + bs + mem.subrange(off + bs.len(), mem.len() as int)
}

/// A block after its first `k` arguments were written from `vals`.
pub open spec fn filled(mem: Seq<u8>, l: ArgLayout, vals: Seq<ArgValue>, k: nat) -> Seq<u8>
    decreases k,
{
    if k == 0 {
        mem
    } else {
        write_bytes(
            filled(mem, l, vals, (k - 1) as nat),
            l.spec_offsets()[k - 1] as int,
            encode(l.spec_args()[k - 1], vals[k - 1])->Ok_0,
        )
    }
}

/// The value at index `i` cannot fill its argument.
pub open spec fn fails_at(l: ArgLayout, vals: Seq<ArgValue>) -> spec_fn(int) -> bool {
    |i: int| encode(l.spec_args()[i], vals[i]) is Err
}

/// The layout facts of a well-formed layout, over its own fields.
proof fn lemma_layout_wf(l: ArgLayout)
    requires
        l.wf(),
    ensures
        l.spec_offsets().len() == l.spec_args().len(),
        forall|i: int|
            0 <= i < l.spec_args().len() ==> #[trigger] l.spec_offsets()[i] + type_size(l.spec_args()[i])
                <= l.spec_size() && type_size(l.spec_args()[i]) > 0,
        forall|i: int, j: int|
            0 <= i < j < l.spec_args().len() ==> #[trigger] l.spec_offsets()[i] + type_size(l.spec_args()[i])
                <= #[trigger] l.spec_offsets()[j],
{
    let args = l.spec_args();
    lemma_fields_layout(args);
    let (fs, fa, fo) = fields_layout(args).unwrap();
    lemma_round_up(fs, fa);
    assert(offsets_nat(l.spec_offsets()) == fo);
    assert forall|i: int| 0 <= i < args.len() implies #[trigger] l.spec_offsets()[i] == fo[i] by {
        assert(offsets_nat(l.spec_offsets())[i] == fo[i]);
    }
}

/// After `k` writes, every argument written so far holds its value's
/// bytes, and the block keeps its length.
proof fn lemma_filled_regions(mem: Seq<u8>, l: ArgLayout, vals: Seq<ArgValue>, k: nat)
    requires
        l.wf(),
        mem.len() == l.spec_size(),
        vals.len() == l.spec_args().len(),
        k <= vals.len(),
        forall|i: int| 0 <= i < k ==> !(#[trigger] (fails_at(l, vals))(i)),
    ensures
        filled(mem, l, vals, k).len() == mem.len(),
        forall|j: int|
            0 <= j < k ==> #[trigger] arg_bytes(l, filled(mem, l, vals, k), j) == encode(
                l.spec_args()[j],
                vals[j],
            )->Ok_0,
    decreases k,
{
    lemma_layout_wf(l);
    if k > 0 {
        let km = (k - 1) as nat;
        assert(!(fails_at(l, vals))(km as int));
        lemma_filled_regions(mem, l, vals, km);
        let prev = filled(mem, l, vals, km);
        let off = l.spec_offsets()[km as int] as int;
        let bs = encode(l.spec_args()[km as int], vals[km as int])->Ok_0;
        lemma_encode_decode(l.spec_args()[km as int], vals[km as int]);
        let cur = filled(mem, l, vals, k);
        assert(cur == write_bytes(prev, off, bs));
        assert(cur.len() == mem.len());
        assert forall|j: int| 0 <= j < k implies #[trigger] arg_bytes(l, cur, j) == encode(
            l.spec_args()[j],
            vals[j],
        )->Ok_0 by {
            if j < km {
                assert(!(fails_at(l, vals))(j));
                assert(l.spec_offsets()[j] + type_size(l.spec_args()[j]) <= l.spec_offsets()[km as int]);
                assert(arg_bytes(l, cur, j) =~= arg_bytes(l, prev, j));
            } else {
                assert(arg_bytes(l, cur, j) =~= bs);
            }
        }
    }
}

/// Filling a block and reading its arguments back gives the arguments the
/// values stand for: each argument read out of a block filled from
/// `vals` is the one its value gives.
pub proof fn law_fill_reads_back(l: ArgLayout, mem: Seq<u8>, vals: Seq<ArgValue>)
    requires
        l.wf(),
        mem.len() == l.spec_size(),
        vals.len() == l.spec_args().len(),
        first_index(vals.len(), fails_at(l, vals)) is None,
    ensures
        forall|i: int|
            0 <= i < vals.len() ==> decode(
                l.spec_args()[i],
                #[trigger] arg_bytes(l, filled(mem, l, vals, vals.len()), i),
            ) == Some(expected_arg(l.spec_args()[i], vals[i])),
{
    assert forall|i: int| 0 <= i < vals.len() implies !(#[trigger] (fails_at(l, vals))(i)) by {
        if (fails_at(l, vals))(i) {
            assert(exists|x: int| 0 <= x < vals.len() && #[trigger] (fails_at(l, vals))(x));
        }
    }
    lemma_filled_regions(mem, l, vals, vals.len());
    assert forall|i: int| 0 <= i < vals.len() implies decode(
        l.spec_args()[i],
        #[trigger] arg_bytes(l, filled(mem, l, vals, vals.len()), i),
    ) == Some(expected_arg(l.spec_args()[i], vals[i])) by {
        assert(!(fails_at(l, vals))(i));
        lemma_encode_decode(l.spec_args()[i], vals[i]);
    }
}

/// Creates a dynamic struct in memory for passing args to jit
#[derive(Debug)]
pub struct ArgMemory {
    mem: Vec<u8>,
    layout: ArgLayout,
}

impl ArgMemory {
    /// The block's bytes.
    pub closed spec fn spec_mem(&self) -> Seq<u8> {
        self.mem@
    }

    /// The block's layout.
    pub closed spec fn spec_layout(&self) -> ArgLayout {
        self.layout
    }

    /// The block has the size of its well-formed layout.
    pub open spec fn wf(&self) -> bool {
        self.spec_layout().wf() && self.spec_mem().len() == self.spec_layout().spec_size()
    }

    /// A zeroed block for an argument list; `None` for no arguments, a
    /// `Void` argument or a block too large.
    pub fn new(args: &[Type]) -> (r: Option<ArgMemory>)
        ensures
            match r {
                Some(m) => m.wf() && m.spec_layout().spec_args() == args@ && m.spec_mem() == Seq::new(
                    m.spec_layout().spec_size(),
                    |i: int| 0u8,
                ),
                None => arg_layout(args@) is None,
            },
    {
        match ArgLayout::new(args) {
            Some(layout) => {
                let size = layout.size();
                let mut mem: Vec<u8> = Vec::new();
                let mut k: usize = 0;
                while k < size
                    invariant
                        k <= size,
                        mem@ == Seq::new(k as nat, |i: int| 0u8),
                    decreases size - k,
                {
                    mem.push(0);
                    k = k + 1;
                    assert(mem@ =~= Seq::new(k as nat, |i: int| 0u8));
                }
                Some(ArgMemory { mem, layout })
            },
            None => None,
        }
    }

    /// Each argument's offset.
    pub fn offsets(&self) -> (r: &[usize])
        ensures
            r@ == self.spec_layout().spec_offsets(),
    {
        self.layout.offsets()
    }

    /// The block's layout.
    pub fn layout(&self) -> (r: &ArgLayout)
        ensures
            *r == self.spec_layout(),
    {
        &self.layout
    }

    /// The block's bytes, to pass to the native call once filled.
    pub fn mem(&self) -> (r: &[u8])
        ensures
            r@ == self.spec_mem(),
    {
        self.mem.as_slice()
    }

    /// Writes argument `k` from `value`, or tells why it cannot.
    fn fill_one(&mut self, k: usize, value: &ArgValue) -> (r: Result<(), FillFault>)
        requires
            old(self).wf(),
            k < old(self).spec_layout().spec_args().len(),
        ensures
            final(self).wf(),
            final(self).spec_layout() == old(self).spec_layout(),
            match encode(old(self).spec_layout().spec_args()[k as int], *value) {
                Ok(bs) => r is Ok && final(self).spec_mem() == write_bytes(
                    old(self).spec_mem(),
                    old(self).spec_layout().spec_offsets()[k as int] as int,
                    bs,
                ),
                Err(f) => r == Err::<(), FillFault>(f) && final(self).spec_mem() == old(self).spec_mem(),
            },
    {
        proof {
            lemma_layout_wf(self.layout);
        }
        let ty = self.layout.args[k];
        let offset = self.layout.offsets[k];
        match encode_value(ty, value) {
            Err(fault) => Err(fault),
            Ok((x, n)) => {
                proof {
                    lemma_encode_decode(ty, *value);
                }
                write_le(&mut self.mem, offset, x, n);
                Ok(())
            },
        }
    }

    /// Fill the block with the values, in order. A wrong number of values
    /// writes nothing; a value that cannot fill its argument stops the
    /// filling there, the arguments before it written.
    pub fn fill(&mut self, values: &[ArgValue]) -> (r: Result<(), FillError>)
        requires
            old(self).wf(),
        ensures
            final(self).wf(),
            final(self).spec_layout() == old(self).spec_layout(),
            values@.len() != old(self).spec_layout().spec_args().len() ==> r == Err::<(), FillError>(
                FillError::ArgCount,
            ) && final(self).spec_mem() == old(self).spec_mem(),
            values@.len() == old(self).spec_layout().spec_args().len() ==> match first_index(
                values@.len(),
                fails_at(old(self).spec_layout(), values@),
            ) {
                Some(k) => r == Err::<(), FillError>(
                    FillError::Arg {
                        index: k as usize,
                        fault: encode(old(self).spec_layout().spec_args()[k], values@[k])->Err_0,
                    },
                ) && final(self).spec_mem() == filled(
                    old(self).spec_mem(),
                    old(self).spec_layout(),
                    values@,
                    k as nat,
                ),
                None => r is Ok && final(self).spec_mem() == filled(
                    old(self).spec_mem(),
                    old(self).spec_layout(),
                    values@,
                    values@.len(),
                ),
            },
    {
        if values.len() != self.layout.args.len() {
            return Err(FillError::ArgCount);
        }
        let ghost start = self.mem@;
        let ghost l0 = self.layout;
        let mut k: usize = 0;
        while k < values.len()
            invariant
                self.wf(),
                self.spec_layout() == l0,
                l0 == old(self).spec_layout(),
                start == old(self).spec_mem(),
                values@.len() == l0.spec_args().len(),
                k <= values@.len(),
                forall|i: int| 0 <= i < k ==> !(#[trigger] (fails_at(l0, values@))(i)),
                self.spec_mem() == filled(start, l0, values@, k as nat),
            decreases values@.len() - k,
        {
            match self.fill_one(k, &values[k]) {
                Err(fault) => {
                    proof {
                        lemma_first_index(values@.len(), fails_at(l0, values@), k as int);
                    }
                    return Err(FillError::Arg { index: k, fault });
                },
                Ok(()) => {},
            }
            k = k + 1;
        }
        Ok(())
    }
}

impl Arg {
    /// The value of the bits of a 32-bit float argument.
    pub fn as_f32_bits(&self) -> (r: u32)
        requires
            *self is F32,
        ensures
            *self == Arg::F32(r),
    {
        match self {
            Arg::F32(v) => *v,
            _ => vstd::pervasive::unreached(),
        }
    }

    /// The value of the bits of a 64-bit float argument.
    pub fn as_f64_bits(&self) -> (r: u64)
        requires
            *self is F64,
        ensures
            *self == Arg::F64(r),
    {
        match self {
            Arg::F64(v) => *v,
            _ => vstd::pervasive::unreached(),
        }
    }

    /// The value of an unsigned 8-bit argument.
    pub fn as_u8(&self) -> (r: u8)
        requires
            *self is U8,
        ensures
            *self == Arg::U8(r),
    {
        match self {
            Arg::U8(v) => *v,
            _ => vstd::pervasive::unreached(),
        }
    }

    /// The value of an unsigned 16-bit argument.
    pub fn as_u16(&self) -> (r: u16)
        requires
            *self is U16,
        ensures
            *self == Arg::U16(r),
    {
        match self {
            Arg::U16(v) => *v,
            _ => vstd::pervasive::unreached(),
        }
    }

    /// The value of an unsigned 32-bit argument.
    pub fn as_u32(&self) -> (r: u32)
        requires
            *self is U32,
        ensures
            *self == Arg::U32(r),
    {
        match self {
            Arg::U32(v) => *v,
            _ => vstd::pervasive::unreached(),
        }
    }

    /// The value of an unsigned 64-bit argument.
    pub fn as_u64(&self) -> (r: u64)
        requires
            *self is U64,
        ensures
            *self == Arg::U64(r),
    {
        match self {
            Arg::U64(v) => *v,
            _ => vstd::pervasive::unreached(),
        }
    }

    /// The value of a signed 8-bit argument.
    pub fn as_i8(&self) -> (r: i8)
        requires
            *self is I8,
        ensures
            *self == Arg::I8(r),
    {
        match self {
            Arg::I8(v) => *v,
            _ => vstd::pervasive::unreached(),
        }
    }

    /// The value of a signed 16-bit argument.
    pub fn as_i16(&self) -> (r: i16)
        requires
            *self is I16,
        ensures
            *self == Arg::I16(r),
    {
        match self {
            Arg::I16(v) => *v,
            _ => vstd::pervasive::unreached(),
        }
    }

    /// The value of a signed 32-bit argument.
    pub fn as_i32(&self) -> (r: i32)
        requires
            *self is I32,
        ensures
            *self == Arg::I32(r),
    {
        match self {
            Arg::I32(v) => *v,
            _ => vstd::pervasive::unreached(),
        }
    }

    /// The value of a signed 64-bit argument.
    pub fn as_i64(&self) -> (r: i64)
        requires
            *self is I64,
        ensures
            *self == Arg::I64(r),
    {
        match self {
            Arg::I64(v) => *v,
            _ => vstd::pervasive::unreached(),
        }
    }

    /// The value of a pointer argument.
    pub fn as_ptr(&self) -> (r: usize)
        requires
            *self is Ptr,
        ensures
            *self == Arg::Ptr(r),
    {
        match self {
            Arg::Ptr(v) => *v,
            _ => vstd::pervasive::unreached(),
        }
    }

    /// The value of a boolean argument.
    pub fn as_bool(&self) -> (r: bool)
        requires
            *self is Bool,
        ensures
            *self == Arg::Bool(r),
    {
        match self {
            Arg::Bool(v) => *v,
            _ => vstd::pervasive::unreached(),
        }
    }

    /// The value of a C string pointer argument.
    pub fn as_cstr(&self) -> (r: usize)
        requires
            *self is CStr,
        ensures
            *self == Arg::CStr(r),
    {
        match self {
            Arg::CStr(v) => *v,
            _ => vstd::pervasive::unreached(),
        }
    }

    /// The value of a UTF-16 string pointer argument.
    pub fn as_wstr(&self) -> (r: usize)
        requires
            *self is WStr,
        ensures
            *self == Arg::WStr(r),
    {
        match self {
            Arg::WStr(v) => *v,
            _ => vstd::pervasive::unreached(),
        }
    }

    /// The value of a one-byte character argument.
    pub fn as_char(&self) -> (r: char)
        requires
            *self is Char,
        ensures
            *self == Arg::Char(r),
    {
        match self {
            Arg::Char(v) => *v,
            _ => vstd::pervasive::unreached(),
        }
    }

    /// The value of a UTF-16 character argument.
    pub fn as_wchar(&self) -> (r: char)
        requires
            *self is WChar,
        ensures
            *self == Arg::WChar(r),
    {
        match self {
            Arg::WChar(v) => *v,
            _ => vstd::pervasive::unreached(),
        }
    }
}

} // verus!
