//! The first form of the export search: symbols carry only a name and an
//! address, lookups that find nothing are errors, and demangling gives the
//! bare name.

use vstd::prelude::*;

use super::symbols::{named, ExportEntry};
use crate::render::{hex_chars, push_hex, push_str, string_from_chars};
use crate::search::{first_where, lemma_first_where};
use crate::text::{opt_string_view, seq_contains, str_contains, str_eq};

verus! {

/// An error for the [Symbol] type
#[derive(Debug)]
pub enum SymbolError {
    /// no export matched
    SymbolNotFound,
    /// an error from pelite
    Pelite(pelite::Error),
}

/// A symbol in a module
#[derive(Debug)]
pub struct Symbol {
    name: String,
    address: usize,
}

impl Symbol {
    /// The symbol's name.
    pub closed spec fn spec_name(&self) -> Seq<char> {
        self.name@
    }

    /// The symbol's address.
    pub closed spec fn spec_address(&self) -> usize {
        self.address
    }

    /// The symbol's name.
    pub fn name(&self) -> (r: &str)
        ensures
            r@ == self.spec_name(),
    {
        self.name.as_str()
    }

    /// The symbol's address.
    pub fn address(&self) -> (r: usize)
        ensures
            r == self.spec_address(),
    {
        self.address
    }

    /// The symbol as text: `Symbol { name: <name>, address: 0x<hex> }`.
    pub fn to_string(&self) -> (r: String)
        ensures
            r@ == "Symbol { name: "@ + self.spec_name() + ", address: 0x"@ + hex_chars(self.spec_address() as nat)
                + " }"@,
    {
        let mut out: Vec<char> = Vec::new();
        push_str(&mut out, "Symbol { name: ");
        push_str(&mut out, self.name.as_str());
        push_str(&mut out, ", address: 0x");
        push_hex(&mut out, self.address as u128);
        push_str(&mut out, " }");
        string_from_chars(out.as_slice())
    }
}

/// Copies an export entry into a symbol, with the given name.
fn symbol_at(entry: &ExportEntry, name: String) -> (r: Symbol)
    ensures
        r.spec_name() == name@,
        r.spec_address() == entry.address,
{
    Symbol { name, address: entry.address }
}

/// What `symbolic_demangle` gives for a mangled name, asked for the bare
/// name (no return type, no parameters) with the language detected from
/// the name; `None` where it cannot demangle it.
pub uninterp spec fn bare_demangling(symbol: Seq<char>) -> Option<Seq<char>>;

/// `Demangle::demangle` of `symbolic_demangle`, on
/// `Name::new(symbol, NameMangling::Mangled, Language::Unknown)` with
/// `DemangleOptions::name_only()`. The result is a function of the name
/// alone; what it is for a given name is left to the outside crate.
#[verifier::external_body]
fn demangle_name_only(symbol: &str) -> (r: Option<String>)
    ensures
        opt_string_view(r) == bare_demangling(symbol@),
{
    let name = symbolic_common::Name::new(
        symbol,
        symbolic_common::NameMangling::Mangled,
        symbolic_common::Language::Unknown,
    );
    symbolic_demangle::Demangle::demangle(&name, symbolic_demangle::DemangleOptions::name_only())
}

/// The bare demangled name, or the name itself where it cannot be demangled.
pub open spec fn bare_name(symbol: Seq<char>) -> Seq<char> {
    match bare_demangling(symbol) {
        Some(d) => d,
        None => symbol,
    }
}

/// Demangle a symbol. If language can not be detected, returns original mangled symbol, otherwise
/// will return demangled symbol
///
/// Supports:
/// C++ (GCC-style compilers and MSVC)
/// Rust (both legacy and v0)
/// Swift (up to Swift 5.3)
/// ObjC (only symbol detection)
pub fn demangle_symbol(symbol: &str) -> (r: String)
    ensures
        r@ == bare_name(symbol@),
{
    match demangle_name_only(symbol) {
        Some(d) => d,
        None => symbol.to_owned(),
    }
}

/// Return all symbols in their raw form
pub fn enum_symbols(exports: &[ExportEntry]) -> (r: Vec<Symbol>)
    ensures
        r@.len() == exports@.len(),
        forall|i: int|
            0 <= i < exports@.len() ==> (#[trigger] r@[i]).spec_name() == exports@[i].name@
                && r@[i].spec_address() == exports@[i].address,
{
    let mut out: Vec<Symbol> = Vec::new();
    let mut k: usize = 0;
    while k < exports.len()
        invariant
            k <= exports@.len(),
            out@.len() == k,
            forall|i: int|
                0 <= i < k ==> (#[trigger] out@[i]).spec_name() == exports@[i].name@
                    && out@[i].spec_address() == exports@[i].address,
        decreases exports@.len() - k,
    {
        let e = &exports[k];
        out.push(symbol_at(e, e.name.clone()));
        k = k + 1;
    }
    out
}

/// Return all symbols with their bare demangled names
pub fn enum_symbols_demangled(exports: &[ExportEntry]) -> (r: Vec<Symbol>)
    ensures
        r@.len() == exports@.len(),
        forall|i: int|
            0 <= i < exports@.len() ==> (#[trigger] r@[i]).spec_name() == bare_name(exports@[i].name@)
                && r@[i].spec_address() == exports@[i].address,
{
    let mut out: Vec<Symbol> = Vec::new();
    let mut k: usize = 0;
    while k < exports.len()
        invariant
            k <= exports@.len(),
            out@.len() == k,
            forall|i: int|
                0 <= i < k ==> (#[trigger] out@[i]).spec_name() == bare_name(exports@[i].name@)
                    && out@[i].spec_address() == exports@[i].address,
        decreases exports@.len() - k,
    {
        let e = &exports[k];
        out.push(symbol_at(e, demangle_symbol(e.name.as_str())));
        k = k + 1;
    }
    out
}

/// The export's bare demangled name (or its name, where it cannot be
/// demangled) contains `symbol`.
pub open spec fn bare_name_contains(symbol: Seq<char>) -> spec_fn(ExportEntry) -> bool {
    |e: ExportEntry| seq_contains(bare_name(e.name@), symbol)
}

/// Find the address of an exported symbol in the module
/// Note that the name IS case-sensitive and requires an exact match!
pub fn find_symbol_address(exports: &[ExportEntry], symbol: &str) -> (r: Result<Symbol, SymbolError>)
    ensures
        match first_where(exports@, named(symbol@)) {
            Some(i) => r matches Ok(s) && s.spec_name() == exports@[i].name@ && s.spec_address()
                == exports@[i].address,
            None => r matches Err(SymbolError::SymbolNotFound),
        },
{
    let mut k: usize = 0;
    while k < exports.len()
        invariant
            k <= exports@.len(),
            forall|j: int| 0 <= j < k ==> !(named(symbol@))(#[trigger] exports@[j]),
        decreases exports@.len() - k,
    {
        let e = &exports[k];
        if str_eq(symbol, e.name.as_str()) {
            proof {
                lemma_first_where(exports@, named(symbol@), k as int);
            }
            return Ok(symbol_at(e, e.name.clone()));
        }
        k = k + 1;
    }
    Err(SymbolError::SymbolNotFound)
}

/// Find the address of an exported symbol in the module
/// Note that the name IS case-sensitive but only requires a partial match!
/// The symbol returned carries the demangled name.
pub fn find_symbol_address_demangled(exports: &[ExportEntry], symbol: &str) -> (r: Result<Symbol, SymbolError>)
    ensures
        match first_where(exports@, bare_name_contains(symbol@)) {
            Some(i) => r matches Ok(s) && s.spec_name() == bare_name(exports@[i].name@)
                && s.spec_address() == exports@[i].address,
            None => r matches Err(SymbolError::SymbolNotFound),
        },
{
    let mut k: usize = 0;
    while k < exports.len()
        invariant
            k <= exports@.len(),
            forall|j: int| 0 <= j < k ==> !(bare_name_contains(symbol@))(#[trigger] exports@[j]),
        decreases exports@.len() - k,
    {
        let e = &exports[k];
        let name = demangle_symbol(e.name.as_str());
        if str_contains(name.as_str(), symbol) {
            proof {
                lemma_first_where(exports@, bare_name_contains(symbol@), k as int);
            }
            return Ok(symbol_at(e, name));
        }
        k = k + 1;
    }
    Err(SymbolError::SymbolNotFound)
}

} // verus!
