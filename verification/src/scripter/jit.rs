//! The signature of a native function generated for a script callback.
//! Generating its code is the caller's part.

use vstd::prelude::*;

use super::args::Type;

verus! {

/// An error in a callback signature
#[derive(Debug, Clone, Copy, PartialEq, Eq, Structural)]
pub enum SignatureError {
    /// void is not a valid argument type; the index of the first such argument
    VoidArgument(usize),
}

/// The signature of a generated function: its parameter types, and its
/// return type unless it returns nothing
#[derive(Debug)]
pub struct Signature {
    /// the parameter types, in order
    pub params: Vec<Type>,
    /// the return type, `None` for `Void`
    pub returns: Option<Type>,
}

/// The signature for argument types `args` and return type `ret`: every
/// argument becomes a parameter, a `Void` one being an error; a `Void`
/// return is no return value.
pub fn jit_signature(args: &[Type], ret: Type) -> (r: Result<Signature, SignatureError>)
    ensures
        match crate::search::first_where(args@, |t: Type| t == Type::Void) {
            Some(i) => r == Err::<Signature, SignatureError>(SignatureError::VoidArgument(i as usize)),
            None => r matches Ok(s) && s.params@ == args@ && s.returns == (if ret == Type::Void {
                None
            } else {
                Some(ret)
            }),
        },
{
    let mut params: Vec<Type> = Vec::new();
    let mut k: usize = 0;
    while k < args.len()
        invariant
            k <= args@.len(),
            params@ == args@.take(k as int),
            forall|j: int| 0 <= j < k ==> args@[j] != Type::Void,
        decreases args@.len() - k,
    {
        let t = args[k];
        if t == Type::Void {
            proof {
                crate::search::lemma_first_where(args@, |t: Type| t == Type::Void, k as int);
            }
            return Err(SignatureError::VoidArgument(k));
        }
        params.push(t);
        k = k + 1;
        assert(params@ =~= args@.take(k as int));
    }
    proof {
        assert(args@.take(k as int) =~= args@);
        assert(!exists|i: int| 0 <= i < args@.len() && (|t: Type| t == Type::Void)(args@[i]));
    }
    let ret_ty = if ret == Type::Void {
        None
    } else {
        Some(ret)
    };
    Ok(Signature { params, returns: ret_ty })
}

} // verus!
