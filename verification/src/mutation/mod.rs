//! The newer memory toolkit: vtable and function hooks that undo themselves,
//! and memory access monitoring.

pub mod prot;
pub use prot::Prot;
pub mod vtable;
pub mod hook;
pub mod monitor;
pub mod write_monitor;
