//! Memory protection states, and their page protection flag values.

use vstd::prelude::*;

verus! {

/// `PAGE_NOACCESS`
pub const PAGE_NOACCESS: u32 = 0x01;
/// `PAGE_READONLY`
pub const PAGE_READONLY: u32 = 0x02;
/// `PAGE_READWRITE`
pub const PAGE_READWRITE: u32 = 0x04;
/// `PAGE_WRITECOPY`
pub const PAGE_WRITECOPY: u32 = 0x08;
/// `PAGE_EXECUTE`
pub const PAGE_EXECUTE: u32 = 0x10;
/// `PAGE_EXECUTE_READ`
pub const PAGE_EXECUTE_READ: u32 = 0x20;
/// `PAGE_EXECUTE_READWRITE`
pub const PAGE_EXECUTE_READWRITE: u32 = 0x40;
/// `PAGE_EXECUTE_WRITECOPY`
pub const PAGE_EXECUTE_WRITECOPY: u32 = 0x80;

/// The protection status of some memory
#[derive(Debug, Clone, Copy, PartialEq, Eq, Structural)]
pub enum Prot {
    /// no access
    NoAccess,
    /// read
    R,
    /// write
    W,
    /// execute
    X,
    /// execute + read
    XR,
    /// execute + write
    XW,
    /// read + write
    RW,
    /// execute + read + write
    XRW,
}

impl Prot {
    /// The page protection flags for this protection; `NoAccess` has none.
    pub open spec fn spec_flags(self) -> u32 {
        match self {
            Prot::NoAccess => 0,
            Prot::R => PAGE_READONLY,
            Prot::W => PAGE_WRITECOPY,
            Prot::X => PAGE_EXECUTE,
            Prot::XR => PAGE_EXECUTE_READ,
            Prot::XW => PAGE_EXECUTE_WRITECOPY,
            Prot::RW => PAGE_READWRITE,
            Prot::XRW => PAGE_EXECUTE_READWRITE,
        }
    }

    /// The protection named by page protection flags; unknown flags give `NoAccess`.
    pub open spec fn spec_from_flags(flags: u32) -> Prot {
        if flags == PAGE_READONLY {
            Prot::R
        } else if flags == PAGE_WRITECOPY {
            Prot::W
        } else if flags == PAGE_EXECUTE {
            Prot::X
        } else if flags == PAGE_EXECUTE_READ {
            Prot::XR
        } else if flags == PAGE_EXECUTE_WRITECOPY {
            Prot::XW
        } else if flags == PAGE_READWRITE {
            Prot::RW
        } else if flags == PAGE_EXECUTE_READWRITE {
            Prot::XRW
        } else {
            Prot::NoAccess
        }
    }

    /// The page protection flags for this protection (there are none for `NoAccess`).
    pub fn to_flags(self) -> (r: u32)
        requires
            self != Prot::NoAccess,
        ensures
            r == self.spec_flags(),
    {
        match self {
            Prot::NoAccess => 0,
            Prot::R => PAGE_READONLY,
            Prot::W => PAGE_WRITECOPY,
            Prot::X => PAGE_EXECUTE,
            Prot::XR => PAGE_EXECUTE_READ,
            Prot::XW => PAGE_EXECUTE_WRITECOPY,
            Prot::RW => PAGE_READWRITE,
            Prot::XRW => PAGE_EXECUTE_READWRITE,
        }
    }

    /// The protection named by page protection flags; unknown flags give `NoAccess`.
    pub fn from_flags(flags: u32) -> (r: Prot)
        ensures
            r == Prot::spec_from_flags(flags),
    {
        if flags == PAGE_READONLY {
            Prot::R
        } else if flags == PAGE_WRITECOPY {
            Prot::W
        } else if flags == PAGE_EXECUTE {
            Prot::X
        } else if flags == PAGE_EXECUTE_READ {
            Prot::XR
        } else if flags == PAGE_EXECUTE_WRITECOPY {
            Prot::XW
        } else if flags == PAGE_READWRITE {
            Prot::RW
        } else if flags == PAGE_EXECUTE_READWRITE {
            Prot::XRW
        } else {
            Prot::NoAccess
        }
    }
}

/// Converting a protection to flags and back gives the same protection.
pub proof fn law_prot_flags_roundtrip(p: Prot)
    requires
        p != Prot::NoAccess,
    ensures
        Prot::spec_from_flags(p.spec_flags()) == p,
{
}

/// Each protection has the value of the page protection constant that names
/// it (read-only `0x02`, write-copy `0x08`, execute `0x10`, execute-read
/// `0x20`, execute-write-copy `0x80`, read-write `0x04`,
/// execute-read-write `0x40`), and each of those values names its
/// protection; any other value names NoAccess.
pub proof fn law_prot_flag_values(f: u32)
    ensures
        Prot::R.spec_flags() == 0x02,
        Prot::W.spec_flags() == 0x08,
        Prot::X.spec_flags() == 0x10,
        Prot::XR.spec_flags() == 0x20,
        Prot::XW.spec_flags() == 0x80,
        Prot::RW.spec_flags() == 0x04,
        Prot::XRW.spec_flags() == 0x40,
        Prot::spec_from_flags(0x02) == Prot::R,
        Prot::spec_from_flags(0x08) == Prot::W,
        Prot::spec_from_flags(0x10) == Prot::X,
        Prot::spec_from_flags(0x20) == Prot::XR,
        Prot::spec_from_flags(0x80) == Prot::XW,
        Prot::spec_from_flags(0x04) == Prot::RW,
        Prot::spec_from_flags(0x40) == Prot::XRW,
        (f != 0x02 && f != 0x08 && f != 0x10 && f != 0x20 && f != 0x80 && f != 0x04 && f != 0x40) ==> Prot::spec_from_flags(f) == Prot::NoAccess,
{
}

} // verus!
