//! What calls a native function from a script: its address and the block
//! its arguments are filled into.

use vstd::prelude::*;

use super::args::{arg_layout, ArgMemory, Type};

verus! {

/// An error making a [Trampoline]
#[derive(Debug, Clone, Copy, PartialEq, Eq, Structural)]
pub enum TrampolineError {
    /// failed to create ArgMemory
    ArgMemory,
    /// address is unexpectedly null
    NullAddress,
}

/// Calls the native function at an address, with its arguments filled
/// into a block laid out for them
#[derive(Debug)]
pub struct Trampoline {
    addr: usize,
    arg_mem: ArgMemory,
}

impl Trampoline {
    /// The function's address.
    pub closed spec fn spec_addr(&self) -> usize {
        self.addr
    }

    /// The argument block.
    pub closed spec fn spec_arg_mem(&self) -> ArgMemory {
        self.arg_mem
    }

    /// The trampoline for the function at `address` taking `args`: fails
    /// where no argument block can be laid out for them, then where the
    /// address is null.
    pub fn new(address: usize, args: &[Type]) -> (r: Result<Trampoline, TrampolineError>)
        ensures
            arg_layout(args@) is None ==> r == Err::<Trampoline, TrampolineError>(TrampolineError::ArgMemory),
            arg_layout(args@) is Some && address == 0 ==> r == Err::<Trampoline, TrampolineError>(
                TrampolineError::NullAddress,
            ),
            arg_layout(args@) is Some && address != 0 ==> (r matches Ok(t) && t.spec_addr() == address
                && t.spec_arg_mem().wf() && t.spec_arg_mem().spec_layout().spec_args() == args@),
    {
        let arg_mem = match ArgMemory::new(args) {
            Some(m) => m,
            None => {
                return Err(TrampolineError::ArgMemory);
            },
        };
        if address == 0 {
            return Err(TrampolineError::NullAddress);
        }
        Ok(Trampoline { addr: address, arg_mem })
    }

    /// The function's address.
    pub fn addr(&self) -> (r: usize)
        ensures
            r == self.spec_addr(),
    {
        self.addr
    }

    /// The argument block, to fill before a call.
    pub fn arg_mem(&mut self) -> (r: &mut ArgMemory)
        ensures
            *r == old(self).spec_arg_mem(),
            final(self).spec_addr() == old(self).spec_addr(),
            final(self).spec_arg_mem() == *final(r),
    {
        &mut self.arg_mem
    }
}

} // verus!
