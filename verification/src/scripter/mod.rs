//! The script host: native call arguments and return values, the version
//! and configuration records, and the text handling around scripts.

pub mod args;
pub mod ret;
pub mod info;
pub mod config;
pub mod interpreter;
pub mod logging;
pub mod jit;
pub mod trampoline;
pub mod arch;
