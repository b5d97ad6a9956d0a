//! Memory protection states, and their page protection flag values.

use vstd::prelude::*;

verus! {

use crate::mem::prot::{
    PAGE_EXECUTE, PAGE_EXECUTE_READ, PAGE_EXECUTE_READWRITE, PAGE_EXECUTE_WRITECOPY, PAGE_NOACCESS,
    PAGE_READONLY, PAGE_READWRITE, PAGE_WRITECOPY,
};

/// The protection status of some memory
#[derive(Debug, Clone, Copy, PartialEq, Eq, Structural)]
pub enum Prot {
    /// no access
    NoAccess,
    /// read
    R,
    /// write
    W,
    /// execute
    X,
    /// execute + read
    XR,
    /// execute + write
    XW,
    /// read + write
    RW,
    /// execute + read + write
    XRW,
    /// Other not listed
    Other,
}

impl Prot {
    /// The page protection flags for this protection; `Other` has none.
    pub open spec fn spec_flags(self) -> u32 {
        match self {
            Prot::NoAccess => PAGE_NOACCESS,
            Prot::R => PAGE_READONLY,
            Prot::W => PAGE_WRITECOPY,
            Prot::X => PAGE_EXECUTE,
            Prot::XR => PAGE_EXECUTE_READ,
            Prot::XW => PAGE_EXECUTE_WRITECOPY,
            Prot::RW => PAGE_READWRITE,
            Prot::XRW => PAGE_EXECUTE_READWRITE,
            Prot::Other => 0,
        }
    }

    /// The protection named by page protection flags; unknown flags give `Other`.
    pub open spec fn spec_from_flags(flags: u32) -> Prot {
        if flags == PAGE_READONLY {
            Prot::R
        } else if flags == PAGE_WRITECOPY {
            Prot::W
        } else if flags == PAGE_EXECUTE {
            Prot::X
        } else if flags == PAGE_EXECUTE_READ {
            Prot::XR
        } else if flags == PAGE_EXECUTE_WRITECOPY {
            Prot::XW
        } else if flags == PAGE_READWRITE {
            Prot::RW
        } else if flags == PAGE_EXECUTE_READWRITE {
            Prot::XRW
        } else if flags == PAGE_NOACCESS {
            Prot::NoAccess
        } else {
            Prot::Other
        }
    }

    /// The page protection flags for this protection (there are none for `Other`).
    pub fn to_flags(self) -> (r: u32)
        requires
            self != Prot::Other,
        ensures
            r == self.spec_flags(),
    {
        match self {
            Prot::NoAccess => PAGE_NOACCESS,
            Prot::R => PAGE_READONLY,
            Prot::W => PAGE_WRITECOPY,
            Prot::X => PAGE_EXECUTE,
            Prot::XR => PAGE_EXECUTE_READ,
            Prot::XW => PAGE_EXECUTE_WRITECOPY,
            Prot::RW => PAGE_READWRITE,
            Prot::XRW => PAGE_EXECUTE_READWRITE,
            Prot::Other => 0,
        }
    }

    /// The protection named by page protection flags; unknown flags give `Other`.
    pub fn from_flags(flags: u32) -> (r: Prot)
        ensures
            r == Prot::spec_from_flags(flags),
    {
        if flags == PAGE_READONLY {
            Prot::R
        } else if flags == PAGE_WRITECOPY {
            Prot::W
        } else if flags == PAGE_EXECUTE {
            Prot::X
        } else if flags == PAGE_EXECUTE_READ {
            Prot::XR
        } else if flags == PAGE_EXECUTE_WRITECOPY {
            Prot::XW
        } else if flags == PAGE_READWRITE {
            Prot::RW
        } else if flags == PAGE_EXECUTE_READWRITE {
            Prot::XRW
        } else if flags == PAGE_NOACCESS {
            Prot::NoAccess
        } else {
            Prot::Other
        }
    }
}

/// Converting a protection to flags and back gives the same protection.
pub proof fn law_prot_flags_roundtrip(p: Prot)
    requires
        p != Prot::Other,
    ensures
        Prot::spec_from_flags(p.spec_flags()) == p,
{
}

/// Each protection has the value of the page protection constant that names
/// it (read-only `0x02`, write-copy `0x08`, execute `0x10`, execute-read
/// `0x20`, execute-write-copy `0x80`, read-write `0x04`,
/// execute-read-write `0x40`), and each of those values names its
/// protection; any other value names Other.
pub proof fn law_prot_flag_values(f: u32)
    ensures
        Prot::R.spec_flags() == 0x02,
        Prot::W.spec_flags() == 0x08,
        Prot::X.spec_flags() == 0x10,
        Prot::XR.spec_flags() == 0x20,
        Prot::XW.spec_flags() == 0x80,
        Prot::RW.spec_flags() == 0x04,
        Prot::XRW.spec_flags() == 0x40,
        Prot::spec_from_flags(0x02) == Prot::R,
        Prot::spec_from_flags(0x08) == Prot::W,
        Prot::spec_from_flags(0x10) == Prot::X,
        Prot::spec_from_flags(0x20) == Prot::XR,
        Prot::spec_from_flags(0x80) == Prot::XW,
        Prot::spec_from_flags(0x04) == Prot::RW,
        Prot::spec_from_flags(0x40) == Prot::XRW,
        Prot::NoAccess.spec_flags() == 0x01,
        Prot::spec_from_flags(0x01) == Prot::NoAccess,
        (f != 0x02 && f != 0x08 && f != 0x10 && f != 0x20 && f != 0x80 && f != 0x04 && f != 0x40 && f != 0x01) ==> Prot::spec_from_flags(f) == Prot::Other,
{
}

} // verus!
