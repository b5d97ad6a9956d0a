//! Searching, demangling and hooking a module's import address table. The
//! import descriptors are read by the caller; these functions choose from
//! them and plan the writes that hook and unhook an entry.

use vstd::prelude::*;

use super::memory::MemError;
use super::symbols::{demangle_symbol, shown_name};
use super::vtable::SlotWrite;
use crate::search::{first_where, lemma_first_where};
use crate::text::{seq_contains, str_contains, str_eq};

verus! {

/// An error for the [IATSymbol] type
#[derive(Debug)]
pub enum IATSymbolError {
    /// an error from pelite
    Pelite(pelite::Error),
    /// a name was not a zero-terminated string
    CStr,
    /// an error occurred during mem access
    Mem(MemError),
    /// an import address table entry lies past the end of the address space
    OutOfBounds,
}

/// Identifier for import symbol
#[derive(Debug, Clone, PartialEq)]
pub enum SymbolIdent {
    /// The symbol's name
    Name(String),
    /// The symbol's ordinal
    Ordinal(u16),
}

/// Two identifiers name the same import: the same name, or the same ordinal.
pub open spec fn same_ident(a: SymbolIdent, b: SymbolIdent) -> bool {
    match (a, b) {
        (SymbolIdent::Name(x), SymbolIdent::Name(y)) => x@ == y@,
        (SymbolIdent::Ordinal(x), SymbolIdent::Ordinal(y)) => x == y,
        _ => false,
    }
}

/// A copy of an identifier.
fn copy_ident(i: &SymbolIdent) -> (r: SymbolIdent)
    ensures
        same_ident(r, *i),
{
    match i {
        SymbolIdent::Name(n) => SymbolIdent::Name(n.clone()),
        SymbolIdent::Ordinal(o) => SymbolIdent::Ordinal(*o),
    }
}

/// Whether two identifiers name the same import.
pub fn ident_matches(a: &SymbolIdent, b: &SymbolIdent) -> (r: bool)
    ensures
        r == same_ident(*a, *b),
{
    match (a, b) {
        (SymbolIdent::Name(x), SymbolIdent::Name(y)) => str_eq(x.as_str(), y.as_str()),
        (SymbolIdent::Ordinal(x), SymbolIdent::Ordinal(y)) => *x == *y,
        _ => false,
    }
}

/// The identifier a demangled listing shows: a name demangled where it
/// can be, an ordinal as it is.
pub open spec fn shown_ident(i: SymbolIdent, shown: SymbolIdent) -> bool {
    match i {
        SymbolIdent::Name(n) => shown matches SymbolIdent::Name(s) && s@ == shown_name(n@),
        SymbolIdent::Ordinal(o) => shown == SymbolIdent::Ordinal(o),
    }
}

/// One import, as read from the module's import descriptors
#[derive(Debug)]
pub struct ImportEntry {
    /// the dll the symbol is imported from
    pub dll: String,
    /// the address of the import address table entry
    pub iat_entry: usize,
    /// the function address the entry held when read
    pub orig_fn: usize,
    /// the symbol name or ordinal
    pub ident: SymbolIdent,
}

/// A symbol in a module's import address table
#[derive(Debug)]
pub struct IATSymbol {
    /// the symbol name or ordinal
    pub ident: SymbolIdent,
    /// the dll the symbol belongs to
    pub dll: String,
    /// the address to the original function stored at the iat entry
    pub orig_fn: usize,
    /// the address in the iat table where the actual pointer to the function is stored
    /// note: you cannot write to this without first making it writable
    pub iat_entry: usize,
    // kept apart, since the fields above are public and can be changed
    orig_fn_backup: usize,
    iat_backup: usize,
}

impl IATSymbol {
    /// The symbol's identifier.
    pub closed spec fn spec_ident(&self) -> SymbolIdent {
        self.ident
    }

    /// The dll the symbol belongs to.
    pub closed spec fn spec_dll(&self) -> Seq<char> {
        self.dll@
    }

    /// The public original function address.
    pub closed spec fn spec_orig_fn(&self) -> usize {
        self.orig_fn
    }

    /// The public entry address.
    pub closed spec fn spec_iat_entry(&self) -> usize {
        self.iat_entry
    }

    /// The original function address, as recorded when the symbol was made.
    pub closed spec fn spec_orig_backup(&self) -> usize {
        self.orig_fn_backup
    }

    /// The entry address, as recorded when the symbol was made.
    pub closed spec fn spec_slot(&self) -> usize {
        self.iat_backup
    }

    /// The write that points the entry at `address`.
    pub open spec fn hook_write(&self, address: usize) -> SlotWrite {
        SlotWrite { addr: self.spec_slot(), value: address }
    }

    /// The write that puts the original function back in the entry.
    pub open spec fn unhook_write(&self) -> SlotWrite {
        SlotWrite { addr: self.spec_slot(), value: self.spec_orig_backup() }
    }

    /// The address of the entry, where the function address the symbol
    /// points to is read.
    pub fn fn_addr_slot(&self) -> (r: usize)
        ensures
            r == self.spec_slot(),
    {
        self.iat_backup
    }

    /// Set the function address the iat symbol is pointing to: the write to
    /// make, between making the entry writable and restoring its protection.
    pub fn hook(&self, address: usize) -> (r: SlotWrite)
        ensures
            r == self.hook_write(address),
    {
        SlotWrite { addr: self.iat_backup, value: address }
    }

    /// Undoes any hooking to the iat entry: the write that restores the
    /// original function.
    pub fn unhook(&self) -> (r: SlotWrite)
        ensures
            r == self.unhook_write(),
    {
        SlotWrite { addr: self.iat_backup, value: self.orig_fn_backup }
    }
}

/// `sym` is the symbol of `e`, with identifier `ident`.
pub open spec fn symbol_of(sym: IATSymbol, e: ImportEntry, ident: SymbolIdent) -> bool {
    &&& sym.spec_ident() == ident
    &&& sym.spec_dll() == e.dll@
    &&& sym.spec_orig_fn() == e.orig_fn
    &&& sym.spec_iat_entry() == e.iat_entry
    &&& sym.spec_orig_backup() == e.orig_fn
    &&& sym.spec_slot() == e.iat_entry
}

/// The symbol of an import, with the given identifier.
fn make_symbol(e: &ImportEntry, ident: SymbolIdent) -> (r: IATSymbol)
    ensures
        symbol_of(r, *e, ident),
{
    IATSymbol {
        ident,
        dll: e.dll.clone(),
        orig_fn: e.orig_fn,
        iat_entry: e.iat_entry,
        orig_fn_backup: e.orig_fn,
        iat_backup: e.iat_entry,
    }
}

/// Return all import symbols in their raw form
pub fn enum_iat_symbols(imports: &[ImportEntry]) -> (r: Vec<IATSymbol>)
    ensures
        r@.len() == imports@.len(),
        forall|i: int|
            0 <= i < imports@.len() ==> symbol_of(#[trigger] r@[i], imports@[i], r@[i].spec_ident())
                && same_ident(r@[i].spec_ident(), imports@[i].ident),
{
    let mut out: Vec<IATSymbol> = Vec::new();
    let mut k: usize = 0;
    while k < imports.len()
        invariant
            k <= imports@.len(),
            out@.len() == k,
            forall|i: int|
                0 <= i < k ==> symbol_of(#[trigger] out@[i], imports@[i], out@[i].spec_ident())
                    && same_ident(out@[i].spec_ident(), imports@[i].ident),
        decreases imports@.len() - k,
    {
        let e = &imports[k];
        out.push(make_symbol(e, copy_ident(&e.ident)));
        k = k + 1;
    }
    out
}

/// The identifier with its name demangled, where it can be.
fn demangled_ident(i: &SymbolIdent) -> (r: SymbolIdent)
    ensures
        shown_ident(*i, r),
{
    match i {
        SymbolIdent::Name(n) => match demangle_symbol(n.as_str()) {
            Some(d) => SymbolIdent::Name(d),
            None => SymbolIdent::Name(n.clone()),
        },
        SymbolIdent::Ordinal(o) => SymbolIdent::Ordinal(*o),
    }
}

/// Return all demangled import symbols
pub fn enum_iat_symbols_demangled(imports: &[ImportEntry]) -> (r: Vec<IATSymbol>)
    ensures
        r@.len() == imports@.len(),
        forall|i: int|
            0 <= i < imports@.len() ==> symbol_of(#[trigger] r@[i], imports@[i], r@[i].spec_ident())
                && shown_ident(imports@[i].ident, r@[i].spec_ident()),
{
    let mut out: Vec<IATSymbol> = Vec::new();
    let mut k: usize = 0;
    while k < imports.len()
        invariant
            k <= imports@.len(),
            out@.len() == k,
            forall|i: int|
                0 <= i < k ==> symbol_of(#[trigger] out@[i], imports@[i], out@[i].spec_ident())
                    && shown_ident(imports@[i].ident, out@[i].spec_ident()),
        decreases imports@.len() - k,
    {
        let e = &imports[k];
        out.push(make_symbol(e, demangled_ident(&e.ident)));
        k = k + 1;
    }
    out
}

/// The import has identifier `ident`.
pub open spec fn has_ident(ident: SymbolIdent) -> spec_fn(ImportEntry) -> bool {
    |e: ImportEntry| same_ident(e.ident, ident)
}

/// The import comes from `dll` and has identifier `ident`.
pub open spec fn has_dll_ident(dll: Seq<char>, ident: SymbolIdent) -> spec_fn(ImportEntry) -> bool {
    |e: ImportEntry| e.dll@ == dll && same_ident(e.ident, ident)
}

/// The import is by name, and its demangled name (or the name itself,
/// where it cannot be demangled) contains `name`.
pub open spec fn name_contains(ident: SymbolIdent, name: Seq<char>) -> bool {
    match ident {
        SymbolIdent::Name(n) => seq_contains(shown_name(n@), name),
        SymbolIdent::Ordinal(_) => false,
    }
}

/// The import's demangled name contains `name`.
pub open spec fn demangled_has(name: Seq<char>) -> spec_fn(ImportEntry) -> bool {
    |e: ImportEntry| name_contains(e.ident, name)
}

/// The import comes from `dll` and its demangled name contains `name`.
pub open spec fn dll_demangled_has(dll: Seq<char>, name: Seq<char>) -> spec_fn(ImportEntry) -> bool {
    |e: ImportEntry| e.dll@ == dll && name_contains(e.ident, name)
}

/// What a search for the first import satisfying `found` returns: the
/// symbol of that import, with its identifier as read.
pub open spec fn search_result(imports: Seq<ImportEntry>, found: spec_fn(ImportEntry) -> bool, r: Option<IATSymbol>) -> bool {
    match first_where(imports, found) {
        Some(i) => r matches Some(s) && symbol_of(s, imports[i], s.spec_ident()) && same_ident(
            s.spec_ident(),
            imports[i].ident,
        ),
        None => r is None,
    }
}

/// Whether the import's demangled name contains `name`.
fn demangled_name_contains(ident: &SymbolIdent, name: &str) -> (r: bool)
    ensures
        r == name_contains(*ident, name@),
{
    match ident {
        SymbolIdent::Name(n) => match demangle_symbol(n.as_str()) {
            Some(d) => str_contains(d.as_str(), name),
            None => str_contains(n.as_str(), name),
        },
        SymbolIdent::Ordinal(_) => false,
    }
}

/// Find the first specific iat symbol ident or ordinal
pub fn find_iat_symbol(imports: &[ImportEntry], ident: &SymbolIdent) -> (r: Option<IATSymbol>)
    ensures
        search_result(imports@, has_ident(*ident), r),
{
    let mut k: usize = 0;
    while k < imports.len()
        invariant
            k <= imports@.len(),
            forall|j: int| 0 <= j < k ==> !(has_ident(*ident))(#[trigger] imports@[j]),
        decreases imports@.len() - k,
    {
        let e = &imports[k];
        if ident_matches(&e.ident, ident) {
            proof {
                lemma_first_where(imports@, has_ident(*ident), k as int);
            }
            return Some(make_symbol(e, copy_ident(&e.ident)));
        }
        k = k + 1;
    }
    None
}

/// Find the first specific iat symbol ident or ordinal in a specific dll
///
/// Note that dll name is an exact case sensitive match (with ".dll" extension)
pub fn find_dll_iat_symbol(imports: &[ImportEntry], dll: &str, ident: &SymbolIdent) -> (r: Option<IATSymbol>)
    ensures
        search_result(imports@, has_dll_ident(dll@, *ident), r),
{
    let mut k: usize = 0;
    while k < imports.len()
        invariant
            k <= imports@.len(),
            forall|j: int| 0 <= j < k ==> !(has_dll_ident(dll@, *ident))(#[trigger] imports@[j]),
        decreases imports@.len() - k,
    {
        let e = &imports[k];
        if str_eq(dll, e.dll.as_str()) && ident_matches(ident, &e.ident) {
            proof {
                lemma_first_where(imports@, has_dll_ident(dll@, *ident), k as int);
            }
            return Some(make_symbol(e, copy_ident(&e.ident)));
        }
        k = k + 1;
    }
    None
}

/// Find a specific iat symbol demangled ident name. If you want to find an ordinal, use [find_iat_symbol] instead
/// The search is a fuzzy contains search, but is still case sensitive
pub fn find_iat_symbol_demangled(imports: &[ImportEntry], name: &str) -> (r: Option<IATSymbol>)
    ensures
        search_result(imports@, demangled_has(name@), r),
{
    let mut k: usize = 0;
    while k < imports.len()
        invariant
            k <= imports@.len(),
            forall|j: int| 0 <= j < k ==> !(demangled_has(name@))(#[trigger] imports@[j]),
        decreases imports@.len() - k,
    {
        let e = &imports[k];
        if demangled_name_contains(&e.ident, name) {
            proof {
                lemma_first_where(imports@, demangled_has(name@), k as int);
            }
            return Some(make_symbol(e, copy_ident(&e.ident)));
        }
        k = k + 1;
    }
    None
}

/// Find a specific iat symbol demangled ident name. If you want to find an ordinal, use [find_iat_symbol] instead
/// The search is a fuzzy contains search, but is still case sensitive
///
/// Note that dll name is an exact case sensitive match (with ".dll" extension)
pub fn find_dll_iat_symbol_demangled(imports: &[ImportEntry], dll: &str, name: &str) -> (r: Option<IATSymbol>)
    ensures
        search_result(imports@, dll_demangled_has(dll@, name@), r),
{
    let mut k: usize = 0;
    while k < imports.len()
        invariant
            k <= imports@.len(),
            forall|j: int| 0 <= j < k ==> !(dll_demangled_has(dll@, name@))(#[trigger] imports@[j]),
        decreases imports@.len() - k,
    {
        let e = &imports[k];
        let is_match = demangled_name_contains(&e.ident, name);
        if str_eq(dll, e.dll.as_str()) && is_match {
            proof {
                lemma_first_where(imports@, dll_demangled_has(dll@, name@), k as int);
            }
            return Some(make_symbol(e, copy_ident(&e.ident)));
        }
        k = k + 1;
    }
    None
}

/// After hooking, the function address the symbol points to is the hook's
/// target: the hook writes the entry that [`IATSymbol::fn_addr_slot`] reads,
/// a private copy that reassigning the public fields does not move.
pub proof fn law_fn_addr_after_hook(sym: IATSymbol, address: usize, m: Map<int, usize>)
    ensures
        m.insert(sym.hook_write(address).addr as int, sym.hook_write(address).value)[sym.spec_slot() as int] == address,
{
}

/// Unhooking undoes any hooking: whatever address an entry was pointed at,
/// after the unhook write it holds the original function again, and
/// memory that held the original before the hook is as it was.
pub proof fn law_iat_unhook_restores(sym: IATSymbol, address: usize, m: Map<int, usize>)
    ensures
        ({
            let after = m.insert(sym.hook_write(address).addr as int, sym.hook_write(address).value).insert(
                sym.unhook_write().addr as int,
                sym.unhook_write().value,
            );
            &&& after[sym.spec_slot() as int] == sym.spec_orig_backup()
            &&& (m.dom().contains(sym.spec_slot() as int) && m[sym.spec_slot() as int] == sym.spec_orig_backup())
                ==> after == m
        }),
{
    let after = m.insert(sym.hook_write(address).addr as int, sym.hook_write(address).value).insert(
        sym.unhook_write().addr as int,
        sym.unhook_write().value,
    );
    if m.dom().contains(sym.spec_slot() as int) && m[sym.spec_slot() as int] == sym.spec_orig_backup() {
        assert(after =~= m);
    }
}

} // verus!
