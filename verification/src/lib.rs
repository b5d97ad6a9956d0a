//! Memory inspection and patching toolkit: byte-pattern scanning, jump and
//! trampoline planning, virtual-method-table bookkeeping, argument marshalling
//! for native calls, and the script host's text handling.

pub mod le;
pub mod search;
pub mod text;
pub mod render;
pub mod mem;
pub mod mutation;
pub mod scripter;
