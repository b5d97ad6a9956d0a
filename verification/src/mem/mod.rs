pub mod prot;
pub use prot::Prot;
pub mod aligned_bytes;
pub mod pattern;
pub mod backends;
pub mod scan;
pub mod scanner;
pub mod hook;
pub mod disasm;
pub mod memory;
pub mod vtable;
pub mod symbols;
pub mod symbol;
pub mod segment;
pub mod module;
pub mod iat;
pub mod pe;
