//! A process's loaded modules, from the records of a module snapshot: the
//! names are read out of their fixed, zero-terminated buffers and decoded.
//! Taking the snapshot and holding each module loaded is the caller's part.

use vstd::prelude::*;

use crate::search::{first_where, lemma_first_where, lemma_first_where_agree};
use crate::text::str_eq;

verus! {

/// `std::string::FromUtf16Error`
#[verifier::external_type_specification]
#[verifier::external_body]
pub struct ExFromUtf16Error(std::string::FromUtf16Error);

/// An error for the [Module] type
#[derive(Debug)]
pub enum ModuleError {
    /// wrong path or path does not exist
    BadPath,
    /// cannot convert osstr to utf8
    OsStrConversion,
    /// cannot convert utf16 to utf8
    Utf16Conversion(std::string::FromUtf16Error),
    /// a windows error, by its HRESULT code
    Windows(i32),
    /// no modules were found, with the HRESULT code of the failure
    NoModules(i32),
    /// module was not found
    NotFound,
}

/// One record of a module snapshot
#[derive(Debug, Clone)]
pub struct ModuleEntry {
    /// the module's file name, zero-terminated UTF-16
    pub name: [u16; 256],
    /// the module's path, zero-terminated UTF-16
    pub path: [u16; 260],
    /// base address of the module in memory
    pub base: usize,
    /// the size of the module in memory
    pub size: u32,
}

/// Represents a module
#[derive(Debug)]
pub struct Module {
    /// base address of the module in memory
    pub base: usize,
    /// end address of the module in memory
    pub end: usize,
    /// the size of the module in memory
    pub size: u32,
    /// the filesystem path to the module
    pub path: String,
    /// the filename of the module
    pub name: String,
}

impl Module {
    /// Unload a module from the process.
    ///
    /// Note: Windows keeps a refcount of each module. The module is only unloaded when
    ///       this refcount reaches 0. All existing Module's to a specific dll keep a refcount
    ///       open in order to ensure safe operation of apis. Dropping Module will decrease the refcount by 1.
    ///       To ensure a dll you loaded is unloaded, you must Drop or unload all existing Module references to it.
    pub fn unload(self) {
    }
}

/// What `String::from_utf16` decodes from UTF-16 units; `None` where they
/// hold invalid data.
pub uninterp spec fn utf16_text(units: Seq<u16>) -> Option<Seq<char>>;

/// `String::from_utf16` of std: decodes UTF-16, failing on invalid data.
/// What text a given sequence of units decodes to is left to std.
#[verifier::external_body]
fn decode_utf16(units: &[u16]) -> (r: Result<String, std::string::FromUtf16Error>)
    ensures
        match r {
            Ok(s) => utf16_text(units@) == Some(s@),
            Err(_) => utf16_text(units@) is None,
        },
{
    String::from_utf16(units)
}

/// Where a zero-terminated buffer's text ends: at its first zero unit, or
/// at `fallback` where it holds none.
pub open spec fn nul_index(units: Seq<u16>, fallback: nat) -> nat {
    match first_where(units, |u: u16| u == 0) {
        Some(i) => i as nat,
        None => fallback,
    }
}

/// The units of a zero-terminated buffer's text.
pub open spec fn terminated(units: Seq<u16>, fallback: nat) -> Seq<u16> {
    units.take(nul_index(units, fallback) as int)
}

/// The units of `buf` before its first zero, or its first `fallback` units
/// where it holds no zero.
fn terminated_units(buf: &[u16], fallback: usize) -> (r: Vec<u16>)
    requires
        fallback <= buf@.len(),
    ensures
        r@ == terminated(buf@, fallback as nat),
{
    let mut len = fallback;
    let mut k: usize = 0;
    let mut found = false;
    while k < buf.len() && !found
        invariant
            fallback <= buf@.len(),
            k <= buf@.len(),
            !found ==> len == fallback && forall|j: int| 0 <= j < k ==> buf@[j] != 0,
            found ==> len < buf@.len() && buf@[len as int] == 0 && forall|j: int| 0 <= j < len ==> buf@[j] != 0,
        decreases buf@.len() - k + (if found { 0int } else { 1int }),
    {
        if buf[k] == 0 {
            len = k;
            found = true;
        } else {
            k = k + 1;
        }
    }
    proof {
        if found {
            lemma_first_where(buf@, |u: u16| u == 0, len as int);
        } else {
            assert(!exists|i: int| 0 <= i < buf@.len() && (|u: u16| u == 0)(buf@[i]));
        }
    }
    let mut out: Vec<u16> = Vec::new();
    let mut i: usize = 0;
    while i < len
        invariant
            len <= buf@.len(),
            i <= len,
            len == nul_index(buf@, fallback as nat),
            out@ == buf@.take(i as int),
        decreases len - i,
    {
        out.push(buf[i]);
        i = i + 1;
        assert(out@ =~= buf@.take(i as int));
    }
    out
}

/// The name a snapshot record decodes to, if it decodes.
pub open spec fn entry_name(e: ModuleEntry) -> Option<Seq<char>> {
    utf16_text(terminated(e.name@, 255))
}

/// The path a snapshot record decodes to, if it decodes.
pub open spec fn entry_path(e: ModuleEntry) -> Option<Seq<char>> {
    utf16_text(terminated(e.path@, 259))
}

/// Both of the record's texts decode.
pub open spec fn entry_decodes(e: ModuleEntry) -> bool {
    entry_name(e) is Some && entry_path(e) is Some
}

/// The module lies inside the address space.
pub open spec fn entry_fits(e: ModuleEntry) -> bool {
    e.base + e.size <= usize::MAX
}

/// `m` is the module the record describes (so the record's texts decode).
pub open spec fn describes(m: Module, e: ModuleEntry) -> bool {
    &&& Some(m.name@) == entry_name(e)
    &&& Some(m.path@) == entry_path(e)
    &&& m.base == e.base
    &&& m.size == e.size
    &&& m.end == e.base + e.size
}

/// The module a snapshot record describes: its name and path decoded, its
/// end one past its last byte.
pub fn module_from_entry(entry: &ModuleEntry) -> (r: Result<Module, ModuleError>)
    requires
        entry_fits(*entry),
    ensures
        match r {
            Ok(m) => entry_decodes(*entry) && describes(m, *entry),
            Err(e) => !entry_decodes(*entry) && e is Utf16Conversion,
        },
{
    let name_units = terminated_units(&entry.name, 255);
    let name = match decode_utf16(name_units.as_slice()) {
        Ok(s) => s,
        Err(e) => {
            return Err(ModuleError::Utf16Conversion(e));
        },
    };
    let path_units = terminated_units(&entry.path, 259);
    let path = match decode_utf16(path_units.as_slice()) {
        Ok(s) => s,
        Err(e) => {
            return Err(ModuleError::Utf16Conversion(e));
        },
    };
    let base = entry.base;
    let size = entry.size;
    Ok(Module { base, end: base + size as usize, size, path, name })
}

/// Get the list of all modules a snapshot holds, in its order; fails on the
/// first record whose texts do not decode.
pub fn enum_modules(entries: &[ModuleEntry]) -> (r: Result<Vec<Module>, ModuleError>)
    requires
        forall|i: int| 0 <= i < entries@.len() ==> entry_fits(#[trigger] entries@[i]),
    ensures
        match r {
            Ok(ms) => ms@.len() == entries@.len() && forall|i: int|
                0 <= i < entries@.len() ==> describes(#[trigger] ms@[i], entries@[i]),
            Err(e) => e is Utf16Conversion && exists|i: int|
                0 <= i < entries@.len() && !entry_decodes(#[trigger] entries@[i]),
        },
{
    let mut out: Vec<Module> = Vec::new();
    let mut k: usize = 0;
    while k < entries.len()
        invariant
            k <= entries@.len(),
            forall|i: int| 0 <= i < entries@.len() ==> entry_fits(#[trigger] entries@[i]),
            out@.len() == k,
            forall|i: int| 0 <= i < k ==> describes(#[trigger] out@[i], entries@[i]),
        decreases entries@.len() - k,
    {
        match module_from_entry(&entries[k]) {
            Ok(m) => {
                out.push(m);
            },
            Err(e) => {
                return Err(e);
            },
        }
        k = k + 1;
    }
    Ok(out)
}

/// The search for `name` stops at this record: it does not decode, or it
/// is the module named `name`.
pub open spec fn stops_search(name: Seq<char>) -> spec_fn(ModuleEntry) -> bool {
    |e: ModuleEntry| !entry_decodes(e) || entry_name(e) == Some(name)
}

/// Find a module by name. This is case sensitive. Records are decoded in
/// order up to the one found; a record before it that does not decode
/// fails the search.
pub fn find_module(entries: &[ModuleEntry], name: &str) -> (r: Result<Module, ModuleError>)
    requires
        forall|i: int| 0 <= i < entries@.len() ==> entry_fits(#[trigger] entries@[i]),
    ensures
        match first_where(entries@, stops_search(name@)) {
            Some(i) => if entry_decodes(entries@[i]) {
                r matches Ok(m) && describes(m, entries@[i])
            } else {
                r matches Err(ModuleError::Utf16Conversion(_))
            },
            None => r matches Err(ModuleError::NotFound),
        },
{
    let mut k: usize = 0;
    while k < entries.len()
        invariant
            k <= entries@.len(),
            forall|i: int| 0 <= i < entries@.len() ==> entry_fits(#[trigger] entries@[i]),
            forall|j: int| 0 <= j < k ==> !(stops_search(name@))(#[trigger] entries@[j]),
        decreases entries@.len() - k,
    {
        match module_from_entry(&entries[k]) {
            Ok(m) => {
                if str_eq(m.name.as_str(), name) {
                    proof {
                        lemma_first_where(entries@, stops_search(name@), k as int);
                    }
                    return Ok(m);
                }
            },
            Err(e) => {
                proof {
                    lemma_first_where(entries@, stops_search(name@), k as int);
                }
                return Err(e);
            },
        }
        k = k + 1;
    }
    Err(ModuleError::NotFound)
}

/// The record holds the module named `name`.
pub open spec fn names_module(name: Seq<char>) -> spec_fn(ModuleEntry) -> bool {
    |e: ModuleEntry| entry_name(e) == Some(name)
}

/// Finding a module agrees with listing them: when every record of the
/// snapshot decodes, the search for `name` stops at the first record whose
/// module has that name, the one the listing shows first under it.
pub proof fn law_find_agrees_with_enum(entries: Seq<ModuleEntry>, name: Seq<char>)
    requires
        forall|i: int| 0 <= i < entries.len() ==> entry_decodes(#[trigger] entries[i]),
    ensures
        first_where(entries, stops_search(name)) == first_where(entries, names_module(name)),
{
    assert forall|i: int| 0 <= i < entries.len() implies (stops_search(name))(#[trigger] entries[i]) == (
    names_module(name))(entries[i]) by {
        assert(entry_decodes(entries[i]));
    }
    lemma_first_where_agree(entries, stops_search(name), names_module(name));
}

} // verus!
