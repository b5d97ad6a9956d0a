//! The value a native call returns, read out of the 16 bytes that hold it.

use vstd::prelude::*;

use super::args::{decode, type_size, Arg, Type};
use crate::le::{lemma_pow256_values, read_le};

verus! {

/// The bytes a native call's return value is written to, little-endian;
/// every type's value starts at the first byte.
#[derive(Debug, Clone, Copy, PartialEq, Eq)]
pub struct Ret {
    /// the raw bytes
    pub bytes: [u8; 16],
}

impl Ret {
    /// The returned value, read as type `ret`: `None` for `Void`, and for a
    /// UTF-16 unit that is no character. A C string is returned as its
    /// address; reading the string is the caller's part.
    pub fn to_value(&self, ret: Type) -> (r: Option<Arg>)
        ensures
            r == decode(ret, self.bytes@.take(type_size(ret) as int)),
    {
        proof {
            lemma_pow256_values();
        }
        let n = ret.size();
        let x = read_le(&self.bytes, 0, n);
        proof {
            assert(self.bytes@.subrange(0, n as int) =~= self.bytes@.take(n as int));
            crate::le::lemma_le_value_bound(self.bytes@.take(n as int));
        }
        super::args::decode_value(ret, x)
    }
}

} // verus!
