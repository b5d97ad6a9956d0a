//! Searching and demangling a module's exported symbols. The export table
//! itself is read by the caller; these functions choose from its entries.

use vstd::prelude::*;

use crate::search::{first_where, lemma_first_where};
use crate::text::{opt_string_view, seq_contains, str_contains, str_eq};

verus! {

/// `pelite::Error`
#[verifier::external_type_specification]
#[verifier::external_body]
pub struct ExPeliteError(pelite::Error);

/// An error for the [Symbol] type
#[derive(Debug)]
pub enum SymbolError {
    /// an error from pelite
    Pelite(pelite::Error),
    /// an exported function's address is zero
    NullAddress,
    /// an export names a function past the end of the function table, or
    /// lies past the end of the image
    OutOfBounds,
}

/// One entry of a module's export table, as read from the loaded image:
/// the exported function's address and its name.
#[derive(Debug)]
pub struct ExportEntry {
    /// the address of the exported function
    pub address: usize,
    /// the exported name
    pub name: String,
}

/// A symbol in a module
#[derive(Debug)]
pub struct Symbol {
    /// the symbol name
    pub name: String,
    /// the symbol's starting address
    pub address: usize,
}

/// What `symbolic_demangle` gives for a mangled name, asked for the
/// complete demangling (return type and parameters) with the language
/// detected from the name; `None` where it cannot demangle it.
pub uninterp spec fn complete_demangling(symbol: Seq<char>) -> Option<Seq<char>>;

/// `Demangle::demangle` of `symbolic_demangle`, on
/// `Name::new(symbol, NameMangling::Mangled, Language::Unknown)` with
/// `DemangleOptions::complete()`. The result is a function of the name
/// alone; what it is for a given name is left to the outside crate.
#[verifier::external_body]
fn demangle_complete(symbol: &str) -> (r: Option<String>)
    ensures
        opt_string_view(r) == complete_demangling(symbol@),
{
    let name = symbolic_common::Name::new(
        symbol,
        symbolic_common::NameMangling::Mangled,
        symbolic_common::Language::Unknown,
    );
    symbolic_demangle::Demangle::demangle(&name, symbolic_demangle::DemangleOptions::complete())
}

/// The name a demangled listing shows: the demangling, or the name itself
/// where there is none.
pub open spec fn shown_name(symbol: Seq<char>) -> Seq<char> {
    match complete_demangling(symbol) {
        Some(d) => d,
        None => symbol,
    }
}

/// Demangle a symbol. If language can not be detected, returns original
/// mangled symbol, otherwise will return demangled symbol
///
/// Supports:
/// C++ (GCC-style compilers and MSVC)
/// Rust (both legacy and v0)
/// Swift (up to Swift 5.3)
/// ObjC (only symbol detection)
pub fn demangle_symbol(symbol: &str) -> (r: Option<String>)
    ensures
        r matches Some(d) && d@ == shown_name(symbol@),
{
    match demangle_complete(symbol) {
        Some(d) => Some(d),
        None => Some(symbol.to_owned()),
    }
}

/// Copies an export entry into a symbol, with the given name.
fn symbol_at(entry: &ExportEntry, name: String) -> (r: Symbol)
    ensures
        r.name@ == name@,
        r.address == entry.address,
{
    Symbol { name, address: entry.address }
}

/// Return all symbols in their raw form
pub fn enum_symbols(exports: &[ExportEntry]) -> (r: Vec<Symbol>)
    ensures
        r@.len() == exports@.len(),
        forall|i: int|
            0 <= i < exports@.len() ==> (#[trigger] r@[i]).name@ == exports@[i].name@ && r@[i].address
                == exports@[i].address,
{
    let mut out: Vec<Symbol> = Vec::new();
    let mut k: usize = 0;
    while k < exports.len()
        invariant
            k <= exports@.len(),
            out@.len() == k,
            forall|i: int|
                0 <= i < k ==> (#[trigger] out@[i]).name@ == exports@[i].name@ && out@[i].address
                    == exports@[i].address,
        decreases exports@.len() - k,
    {
        let e = &exports[k];
        out.push(symbol_at(e, e.name.clone()));
        k = k + 1;
    }
    out
}

/// Return all symbols in their demangled form; a name that cannot be
/// demangled stays as it is.
pub fn enum_symbols_demangled(exports: &[ExportEntry]) -> (r: Vec<Symbol>)
    ensures
        r@.len() == exports@.len(),
        forall|i: int|
            0 <= i < exports@.len() ==> (#[trigger] r@[i]).name@ == shown_name(exports@[i].name@)
                && r@[i].address == exports@[i].address,
{
    let mut out: Vec<Symbol> = Vec::new();
    let mut k: usize = 0;
    while k < exports.len()
        invariant
            k <= exports@.len(),
            out@.len() == k,
            forall|i: int|
                0 <= i < k ==> (#[trigger] out@[i]).name@ == shown_name(exports@[i].name@)
                    && out@[i].address == exports@[i].address,
        decreases exports@.len() - k,
    {
        let e = &exports[k];
        let name = match demangle_symbol(e.name.as_str()) {
            Some(d) => d,
            None => e.name.clone(),
        };
        out.push(symbol_at(e, name));
        k = k + 1;
    }
    out
}

/// The export is named exactly `symbol`.
pub open spec fn named(symbol: Seq<char>) -> spec_fn(ExportEntry) -> bool {
    |e: ExportEntry| e.name@ == symbol
}

/// The export's demangled name (the name itself where it cannot be
/// demangled) contains `symbol`.
pub open spec fn demangled_contains(symbol: Seq<char>) -> spec_fn(ExportEntry) -> bool {
    |e: ExportEntry| seq_contains(shown_name(e.name@), symbol)
}

/// Find the address of an exported symbol in the module
/// Note that the name IS case-sensitive and requires an exact match!
pub fn find_symbol_address(exports: &[ExportEntry], symbol: &str) -> (r: Option<Symbol>)
    ensures
        match first_where(exports@, named(symbol@)) {
            Some(i) => r matches Some(s) && s.name@ == exports@[i].name@ && s.address == exports@[i].address,
            None => r is None,
        },
{
    let mut k: usize = 0;
    while k < exports.len()
        invariant
            k <= exports@.len(),
            forall|j: int| 0 <= j < k ==> !(named(symbol@))(#[trigger] exports@[j]),
        decreases exports@.len() - k,
    {
        let e = &exports[k];
        if str_eq(symbol, e.name.as_str()) {
            proof {
                lemma_first_where(exports@, named(symbol@), k as int);
            }
            return Some(symbol_at(e, e.name.clone()));
        }
        k = k + 1;
    }
    None
}

/// Find the address of an exported symbol in the module
/// Note that the name IS case-sensitive but only requires a partial match!
/// The symbol returned carries the demangled name (the name itself where it
/// cannot be demangled).
pub fn find_symbol_address_demangled(exports: &[ExportEntry], symbol: &str) -> (r: Option<Symbol>)
    ensures
        match first_where(exports@, demangled_contains(symbol@)) {
            Some(i) => r matches Some(s) && s.name@ == shown_name(exports@[i].name@)
                && s.address == exports@[i].address,
            None => r is None,
        },
{
    let mut k: usize = 0;
    while k < exports.len()
        invariant
            k <= exports@.len(),
            forall|j: int| 0 <= j < k ==> !(demangled_contains(symbol@))(#[trigger] exports@[j]),
        decreases exports@.len() - k,
    {
        let e = &exports[k];
        let name = match demangle_symbol(e.name.as_str()) {
            Some(d) => d,
            None => e.name.clone(),
        };
        if str_contains(name.as_str(), symbol) {
            proof {
                lemma_first_where(exports@, demangled_contains(symbol@), k as int);
            }
            return Some(symbol_at(e, name));
        }
        k = k + 1;
    }
    None
}

} // verus!
