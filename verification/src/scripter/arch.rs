//! The processor architectures a process can run on, and the names scripts
//! see for them.

use vstd::prelude::*;

use crate::render::{push_str, string_from_chars};

verus! {

/// A processor architecture
#[derive(Debug, Clone, Copy, PartialEq, Eq, Structural)]
pub enum Arch {
    ARMV7,
    ARMV8,
    THUMBV7,
    THUMBV8,
    ARMV7EB,
    THUMBV7EB,
    ARMV8EB,
    THUMBV8EB,
    AARCH64,
    MIPS,
    MIPS64,
    MIPSEL,
    MIPSEL64,
    X86_16,
    X86,
    X64,
    PPC32,
    PPC64,
    PPC64LE,
    SPARC,
    SPARC64,
    SPARCEL,
    SYSZ,
}

impl Arch {
    /// The architecture's name: the variant's own name, in upper case.
    pub open spec fn spec_name(self) -> Seq<char> {
        match self {
            Arch::ARMV7 => "ARMV7"@,
            Arch::ARMV8 => "ARMV8"@,
            Arch::THUMBV7 => "THUMBV7"@,
            Arch::THUMBV8 => "THUMBV8"@,
            Arch::ARMV7EB => "ARMV7EB"@,
            Arch::THUMBV7EB => "THUMBV7EB"@,
            Arch::ARMV8EB => "ARMV8EB"@,
            Arch::THUMBV8EB => "THUMBV8EB"@,
            Arch::AARCH64 => "AARCH64"@,
            Arch::MIPS => "MIPS"@,
            Arch::MIPS64 => "MIPS64"@,
            Arch::MIPSEL => "MIPSEL"@,
            Arch::MIPSEL64 => "MIPSEL64"@,
            Arch::X86_16 => "X86_16"@,
            Arch::X86 => "X86"@,
            Arch::X64 => "X64"@,
            Arch::PPC32 => "PPC32"@,
            Arch::PPC64 => "PPC64"@,
            Arch::PPC64LE => "PPC64LE"@,
            Arch::SPARC => "SPARC"@,
            Arch::SPARC64 => "SPARC64"@,
            Arch::SPARCEL => "SPARCEL"@,
            Arch::SYSZ => "SYSZ"@,
        }
    }

    /// The architecture's name, as scripts see it.
    pub fn name(self) -> (r: &'static str)
        ensures
            r@ == self.spec_name(),
    {
        match self {
            Arch::ARMV7 => "ARMV7",
            Arch::ARMV8 => "ARMV8",
            Arch::THUMBV7 => "THUMBV7",
            Arch::THUMBV8 => "THUMBV8",
            Arch::ARMV7EB => "ARMV7EB",
            Arch::THUMBV7EB => "THUMBV7EB",
            Arch::ARMV8EB => "ARMV8EB",
            Arch::THUMBV8EB => "THUMBV8EB",
            Arch::AARCH64 => "AARCH64",
            Arch::MIPS => "MIPS",
            Arch::MIPS64 => "MIPS64",
            Arch::MIPSEL => "MIPSEL",
            Arch::MIPSEL64 => "MIPSEL64",
            Arch::X86_16 => "X86_16",
            Arch::X86 => "X86",
            Arch::X64 => "X64",
            Arch::PPC32 => "PPC32",
            Arch::PPC64 => "PPC64",
            Arch::PPC64LE => "PPC64LE",
            Arch::SPARC => "SPARC",
            Arch::SPARC64 => "SPARC64",
            Arch::SPARCEL => "SPARCEL",
            Arch::SYSZ => "SYSZ",
        }
    }

    /// The architecture's name, as an owned string.
    pub fn to_string(self) -> (r: String)
        ensures
            r@ == self.spec_name(),
    {
        let mut out: Vec<char> = Vec::new();
        push_str(&mut out, self.name());
        string_from_chars(out.as_slice())
    }
}

} // verus!
