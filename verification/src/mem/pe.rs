//! Reading a loaded module's export and import tables from its image: the
//! tables themselves are read with pelite, and each exported name is paired
//! with its function, and each import with its address table entry, here.

use vstd::prelude::*;

use pelite::pe64::{Pe, PeView};

use pelite::pe64::imports::Import::{ByName, ByOrdinal};

use super::iat::{IATSymbolError, ImportEntry, SymbolIdent};
use super::symbols::{ExportEntry, SymbolError};
use crate::search::{first_index, first_where, lemma_first_index, lemma_first_where};

verus! {

/// The tables of an export directory, as stored in the image.
#[derive(Debug)]
pub struct ExportTables {
    /// the export address table: the address of each function, relative
    /// to the image base
    pub functions: Vec<u32>,
    /// the exported names, in the order of the name table, decoded lossily
    /// from their bytes; read up to the first that cannot be read
    pub names: Vec<String>,
    /// the name index table: for each name, its function's index in
    /// `functions`
    pub name_indices: Vec<u16>,
    /// why reading the names stopped early, if it did
    pub name_fault: Option<pelite::Error>,
}

/// What pelite reads from the export directory of the mapped 64-bit image
/// `image`: the export address table, the exported names up to the first
/// that cannot be read, the name index table, and whether every name was
/// read; `None` where the tables themselves cannot be read.
pub uninterp spec fn export_directory(image: Seq<u8>) -> Option<(Seq<u32>, Seq<Seq<char>>, Seq<u16>, bool)>;

/// The tables of `t`, as plain values.
pub open spec fn export_tables_view(t: ExportTables) -> (Seq<u32>, Seq<Seq<char>>, Seq<u16>, bool) {
    (t.functions@, t.names@.map_values(|s: String| s@), t.name_indices@, t.name_fault is None)
}

/// `PeView::from_bytes` on `image`, then `exports`, `functions`,
/// `name_indices` and `names`, each name read with `derva_c_str` and
/// decoded lossily until one cannot be read. When it succeeds, the tables
/// are those named by [`export_directory`]; there are as many name indices
/// as names when every name was read, and more otherwise (both tables have
/// `NumberOfNames` entries). It also fails where the bytes do not start at
/// an address aligned to 4, so only its successes are tied to the name.
#[verifier::external_body]
fn read_export_directory(image: &[u8]) -> (r: Result<ExportTables, pelite::Error>)
    ensures
        r matches Ok(t) ==> export_directory(image@) == Some(export_tables_view(t)),
        r matches Ok(t) ==> (t.name_fault is None ==> t.names@.len() == t.name_indices@.len()),
        r matches Ok(t) ==> (t.name_fault is Some ==> t.names@.len() < t.name_indices@.len()),
        export_directory(image@) is None ==> r is Err,
{
    let view = PeView::from_bytes(image)?;
    let exp = view.exports()?;
    let (functions, name_indices) = (exp.functions()?.to_vec(), exp.name_indices()?.to_vec());
    let (mut names, mut name_fault) = (Vec::new(), None);
    for &rva in exp.names()? {
        match view.derva_c_str(rva) {
            Ok(name) => names.push(String::from_utf8_lossy(name).into_owned()),
            Err(e) => {
                name_fault = Some(e);
                break;
            },
        }
    }
    Ok(ExportTables { functions, names, name_indices, name_fault })
}

/// What is wrong with the export named at position `k`, if anything: its
/// name index lies past the function table, or its function's address is
/// zero, lies past the end of the image (`image_len` bytes) or past the end
/// of the address space once placed at `base`.
pub open spec fn export_fault(t: (Seq<u32>, Seq<Seq<char>>, Seq<u16>, bool), image_len: nat, base: nat, k: int) -> Option<SymbolError> {
    let idx = t.2[k] as int;
    if idx >= t.0.len() {
        Some(SymbolError::OutOfBounds)
    } else if t.0[idx] == 0 {
        Some(SymbolError::NullAddress)
    } else if t.0[idx] >= image_len || base + t.0[idx] > usize::MAX {
        Some(SymbolError::OutOfBounds)
    } else {
        None
    }
}

/// The export named at position `k` has a fault.
pub open spec fn export_faulty(t: (Seq<u32>, Seq<Seq<char>>, Seq<u16>, bool), image_len: nat, base: nat) -> spec_fn(int) -> bool {
    |k: int| export_fault(t, image_len, base, k) is Some
}

/// `e` is the export named at position `k`: the `k`-th name, and the
/// function its name index picks, placed at `base`.
pub open spec fn is_export(e: ExportEntry, t: (Seq<u32>, Seq<Seq<char>>, Seq<u16>, bool), base: nat, k: int) -> bool {
    &&& e.name@ == t.1[k]
    &&& e.address == base + t.0[t.2[k] as int]
}

/// The exports of a module, in name table order, up to the first that
/// cannot be had, and why that one cannot (`None` when all were had).
#[derive(Debug)]
pub struct ExportListing {
    /// the exports before the first fault
    pub entries: Vec<ExportEntry>,
    /// the first fault, if any
    pub fault: Option<SymbolError>,
}

/// `l` lists the exports of tables `t` of an image of `image_len` bytes
/// placed at `base`, in order: every export before the first with a fault,
/// then that fault. Where every read name is fine but a name could not be
/// read, the fault is the one of that name's function, if it has one, else
/// pelite's.
pub open spec fn exports_listed(l: ExportListing, t: (Seq<u32>, Seq<Seq<char>>, Seq<u16>, bool), image_len: nat, base: nat) -> bool {
    let n = t.1.len();
    let stop = match first_index(n, export_faulty(t, image_len, base)) {
        Some(k) => k,
        None => n as int,
    };
    &&& l.entries@.len() == stop
    &&& forall|j: int| 0 <= j < stop ==> is_export(#[trigger] l.entries@[j], t, base, j)
    &&& match first_index(n, export_faulty(t, image_len, base)) {
        Some(k) => l.fault == Some(export_fault(t, image_len, base, k)->0),
        None => if t.3 {
            l.fault is None
        } else {
            match export_fault(t, image_len, base, n as int) {
                Some(f) => l.fault == Some(f),
                None => l.fault matches Some(SymbolError::Pelite(_)),
            }
        },
    }
}

/// The fault of the export named at position `k`, if any.
fn fault_at(functions: &Vec<u32>, name_indices: &Vec<u16>, k: usize, image_len: usize, base: usize) -> (r: Option<SymbolError>)
    requires
        k < name_indices@.len(),
    ensures
        r == export_fault((functions@, Seq::empty(), name_indices@, true), image_len as nat, base as nat, k as int),
{
    let idx = name_indices[k] as usize;
    if idx >= functions.len() {
        Some(SymbolError::OutOfBounds)
    } else {
        let rva = functions[idx];
        if rva == 0 {
            Some(SymbolError::NullAddress)
        } else if rva as usize >= image_len || base > usize::MAX - rva as usize {
            Some(SymbolError::OutOfBounds)
        } else {
            None
        }
    }
}

/// The exports of an image of `image_len` bytes loaded at `base`, from its
/// export tables: each name paired with the function its name index picks,
/// in name table order, up to the first that cannot be had.
pub fn exports_from_tables(tables: ExportTables, image_len: usize, base: usize) -> (r: ExportListing)
    requires
        tables.name_fault is None ==> tables.names@.len() == tables.name_indices@.len(),
        tables.name_fault is Some ==> tables.names@.len() < tables.name_indices@.len(),
    ensures
        exports_listed(r, export_tables_view(tables), image_len as nat, base as nat),
        (first_index(tables.names@.len(), export_faulty(export_tables_view(tables), image_len as nat, base as nat)) is None
            && export_fault(export_tables_view(tables), image_len as nat, base as nat, tables.names@.len() as int) is None)
            ==> (tables.name_fault matches Some(e) ==> r.fault == Some(SymbolError::Pelite(e))),
{
    let ghost t = export_tables_view(tables);
    let ExportTables { functions, names, name_indices, name_fault } = tables;
    let n = names.len();
    let mut out: Vec<ExportEntry> = Vec::new();
    let mut k: usize = 0;
    while k < n
        invariant
            t == (functions@, names@.map_values(|s: String| s@), name_indices@, name_fault is None),
            t == export_tables_view(tables),
            n == t.1.len(),
            n <= name_indices@.len(),
            k <= n,
            out@.len() == k,
            forall|j: int| 0 <= j < k ==> !(#[trigger] export_faulty(t, image_len as nat, base as nat)(j)),
            forall|j: int| 0 <= j < k ==> is_export(#[trigger] out@[j], t, base as nat, j),
        decreases n - k,
    {
        let fault = fault_at(&functions, &name_indices, k, image_len, base);
        assert(fault == export_fault(t, image_len as nat, base as nat, k as int));
        match fault {
            Some(e) => {
                proof {
                    lemma_first_index(n as nat, export_faulty(t, image_len as nat, base as nat), k as int);
                }
                return ExportListing { entries: out, fault: Some(e) };
            },
            None => {},
        }
        let idx = name_indices[k] as usize;
        let rva = functions[idx];
        assert(names@.map_values(|s: String| s@)[k as int] == names@[k as int]@);
        out.push(ExportEntry { address: base + rva as usize, name: names[k].clone() });
        k = k + 1;
    }
    proof {
        let p = export_faulty(t, image_len as nat, base as nat);
        assert(!(exists|i: int| 0 <= i < n && #[trigger] p(i)));
    }
    let fault = match name_fault {
        None => None,
        Some(e) => {
            let f = fault_at(&functions, &name_indices, n, image_len, base);
            assert(f == export_fault(t, image_len as nat, base as nat, n as int));
            match f {
                Some(f) => Some(f),
                None => Some(SymbolError::Pelite(e)),
            }
        },
    };
    ExportListing { entries: out, fault }
}

/// The exports of the 64-bit module image `image`, mapped as loaded at
/// `base`, in name table order, up to the first that cannot be had: pelite
/// reads its export tables, and each exported name is paired with the
/// function its name index picks. Where pelite cannot read the tables, its
/// error is returned.
pub fn export_listing(image: &[u8], base: usize) -> (r: Result<ExportListing, SymbolError>)
    ensures
        r is Ok ==> export_directory(image@) is Some,
        export_directory(image@) is None ==> r matches Err(SymbolError::Pelite(_)),
        r matches Err(e) ==> e is Pelite,
        export_directory(image@) matches Some(t) ==> (r matches Ok(l) ==> exports_listed(l, t, image@.len(), base as nat)),
{
    match read_export_directory(image) {
        Ok(tables) => Ok(exports_from_tables(tables, image.len(), base)),
        Err(e) => Err(SymbolError::Pelite(e)),
    }
}

/// The exports of the 64-bit module image `image`, mapped as loaded at
/// `base`, in name table order; the first fault, or pelite's error where it
/// cannot read the tables, where one export cannot be had.
pub fn export_entries(image: &[u8], base: usize) -> (r: Result<Vec<ExportEntry>, SymbolError>)
    ensures
        r is Ok ==> export_directory(image@) is Some,
        export_directory(image@) is None ==> r matches Err(SymbolError::Pelite(_)),
        export_directory(image@) matches Some(t) ==> (r matches Err(SymbolError::Pelite(_)) || ({
            let n = t.1.len();
            match first_index(n, export_faulty(t, image@.len(), base as nat)) {
                Some(k) => r == Err::<Vec<ExportEntry>, SymbolError>(export_fault(t, image@.len(), base as nat, k)->0),
                None => if t.3 {
                    r matches Ok(v) && v@.len() == n && forall|k: int|
                        0 <= k < v@.len() ==> is_export(#[trigger] v@[k], t, base as nat, k)
                } else {
                    export_fault(t, image@.len(), base as nat, n as int) matches Some(f) && r == Err::<
                        Vec<ExportEntry>,
                        SymbolError,
                    >(f)
                },
            }
        })),
{
    let listing = export_listing(image, base)?;
    match listing.fault {
        Some(e) => Err(e),
        None => Ok(listing.entries),
    }
}

/// One import descriptor's tables, as stored in the image.
#[derive(Debug)]
pub struct ImportTables {
    /// the name of the dll imported from, decoded lossily from its bytes
    pub dll: String,
    /// where the descriptor's import address table starts, relative to the
    /// image base
    pub first_thunk: u32,
    /// the import name table: each import's name (decoded lossily) or
    /// ordinal
    pub idents: Vec<SymbolIdent>,
    /// the import address table: the entry of each import, in the same order
    pub thunks: Vec<u64>,
}

/// An import's identifier as plain values: its name, or its ordinal.
pub open spec fn ident_view(i: SymbolIdent) -> (Option<Seq<char>>, u16) {
    match i {
        SymbolIdent::Name(n) => (Some(n@), 0),
        SymbolIdent::Ordinal(o) => (None, o),
    }
}

/// An import descriptor's tables as plain values.
pub open spec fn import_tables_view(d: ImportTables) -> (Seq<char>, u32, Seq<(Option<Seq<char>>, u16)>, Seq<u64>) {
    (d.dll@, d.first_thunk, d.idents@.map_values(|i: SymbolIdent| ident_view(i)), d.thunks@)
}

/// Import descriptors' tables as plain values.
pub open spec fn import_descs_view(v: Seq<ImportTables>) -> Seq<(Seq<char>, u32, Seq<(Option<Seq<char>>, u16)>, Seq<u64>)> {
    v.map_values(|d: ImportTables| import_tables_view(d))
}

/// What pelite reads from the import directory of the mapped 64-bit image
/// `image`: for each descriptor, in order, the dll name, where its address
/// table starts, its imports and its address table entries; `None` where
/// it reports an error.
pub uninterp spec fn import_directory(image: Seq<u8>) -> Option<Seq<(Seq<char>, u32, Seq<(Option<Seq<char>>, u16)>, Seq<u64>)>>;

/// `PeView::from_bytes` on `image`, then `imports`, and for each descriptor
/// `int` (each import by name or by ordinal), `derva_slice` of as many
/// address table entries as there are imports, and `dll_name`. When it
/// succeeds, the descriptors are those named by [`import_directory`], each
/// with one address table entry per import. It also fails where the bytes
/// do not start at an address aligned to 4, so only its successes are tied
/// to the name.
#[verifier::external_body]
fn read_import_directory(image: &[u8]) -> (r: Result<Vec<ImportTables>, pelite::Error>)
    ensures
        r matches Ok(v) ==> import_directory(image@) == Some(import_descs_view(v@)),
        r matches Ok(v) ==> forall|i: int| 0 <= i < v@.len() ==> (#[trigger] v@[i]).thunks@.len() == v@[i].idents@.len(),
        import_directory(image@) is None ==> r is Err,
{
    let view = PeView::from_bytes(image)?;
    let mut out: Vec<ImportTables> = Vec::new();
    for desc in view.imports()? {
        let mut idents: Vec<SymbolIdent> = Vec::new();
        for import in desc.int()? {
            idents.push(match import? {
                ByName { name, .. } => SymbolIdent::Name(String::from_utf8_lossy(name).into_owned()),
                ByOrdinal { ord } => SymbolIdent::Ordinal(ord),
            });
        }
        let thunks = view.derva_slice::<u64>(desc.image().FirstThunk, idents.len())?.to_vec();
        let dll = String::from_utf8_lossy(desc.dll_name()?).into_owned();
        out.push(ImportTables { dll, first_thunk: desc.image().FirstThunk, idents, thunks });
    }
    Ok(out)
}

/// The descriptor's last address table entry lies past the end of the
/// address space once the image is placed at `base`.
pub open spec fn desc_overflows(d: (Seq<char>, u32, Seq<(Option<Seq<char>>, u16)>, Seq<u64>), base: nat) -> bool {
    d.2.len() > 0 && base + d.1 + 8 * (d.2.len() - 1) > usize::MAX
}

/// The position of every import, descriptor by descriptor: the
/// descriptor's index and the import's index within it.
pub open spec fn import_positions(ds: Seq<(Seq<char>, u32, Seq<(Option<Seq<char>>, u16)>, Seq<u64>)>) -> Seq<(int, int)>
    decreases ds.len(),
{
    if ds.len() == 0 {
        Seq::empty()
    } else {
        import_positions(ds.drop_last()) + Seq::new(ds.last().2.len(), |k: int| ((ds.len() - 1) as int, k))
    }
}

/// `e` is import `k` of descriptor `d` of an image placed at `base`: the
/// descriptor's dll, the `k`-th address table entry (its address and what it
/// holds) and the `k`-th identifier.
pub open spec fn is_import(e: ImportEntry, d: (Seq<char>, u32, Seq<(Option<Seq<char>>, u16)>, Seq<u64>), base: nat, k: int) -> bool {
    &&& e.dll@ == d.0
    &&& e.iat_entry == base + d.1 + 8 * k
    &&& e.orig_fn == d.3[k] as usize
    &&& ident_view(e.ident) == d.2[k]
}

/// The condition that a descriptor's entries run past the end of the
/// address space once the image is placed at `base`.
pub open spec fn overflowing(base: nat) -> spec_fn((Seq<char>, u32, Seq<(Option<Seq<char>>, u16)>, Seq<u64>)) -> bool {
    |d: (Seq<char>, u32, Seq<(Option<Seq<char>>, u16)>, Seq<u64>)| desc_overflows(d, base)
}

/// The imports of a module, descriptor by descriptor, up to the first
/// descriptor whose entries cannot be placed, and why (`None` when all
/// were placed).
#[derive(Debug)]
pub struct ImportListing {
    /// the imports before the first fault
    pub entries: Vec<ImportEntry>,
    /// the first fault, if any
    pub fault: Option<IATSymbolError>,
}

/// `l` lists the imports of descriptors `ds` of an image placed at `base`:
/// every import, descriptor by descriptor, with its address table entry,
/// up to the first descriptor whose entries lie past the end of the address
/// space, and then that fault.
pub open spec fn imports_listed(
    l: ImportListing,
    ds: Seq<(Seq<char>, u32, Seq<(Option<Seq<char>>, u16)>, Seq<u64>)>,
    base: nat,
) -> bool {
    let stop = match first_where(ds, overflowing(base)) {
        Some(i) => i,
        None => ds.len() as int,
    };
    let pos = import_positions(ds.take(stop));
    &&& l.entries@.len() == pos.len()
    &&& forall|j: int| 0 <= j < pos.len() ==> is_import(#[trigger] l.entries@[j], ds[pos[j].0], base, pos[j].1)
    &&& (first_where(ds, overflowing(base)) is Some ==> l.fault matches Some(IATSymbolError::OutOfBounds))
    &&& (first_where(ds, overflowing(base)) is None ==> l.fault is None)
}

/// The imports of an image placed at `base`, from its import descriptors,
/// descriptor by descriptor: each import with its address table entry, up
/// to the first descriptor whose entries lie past the end of the address
/// space.
pub fn imports_from_tables(descs: &[ImportTables], base: usize) -> (r: ImportListing)
    requires
        forall|i: int| 0 <= i < descs@.len() ==> (#[trigger] descs@[i]).thunks@.len() == descs@[i].idents@.len(),
    ensures
        imports_listed(r, import_descs_view(descs@), base as nat),
{
    let ghost ds = import_descs_view(descs@);
    let mut out: Vec<ImportEntry> = Vec::new();
    let mut i: usize = 0;
    while i < descs.len()
        invariant
            ds == import_descs_view(descs@),
            i <= descs@.len(),
            forall|m: int| 0 <= m < descs@.len() ==> (#[trigger] descs@[m]).thunks@.len() == descs@[m].idents@.len(),
            forall|m: int| 0 <= m < i ==> !desc_overflows(#[trigger] ds[m], base as nat),
            out@.len() == import_positions(ds.take(i as int)).len(),
            forall|j: int| 0 <= j < out@.len() ==> is_import(#[trigger] out@[j], ds[import_positions(ds.take(i as int))[j].0], base as nat, import_positions(ds.take(i as int))[j].1),
        decreases descs@.len() - i,
    {
        let d = &descs[i];
        let n = d.idents.len();
        assert(ds[i as int] == import_tables_view(*d));
        assert(ds[i as int].2.len() == n);
        if n > 0 && (base > usize::MAX - d.first_thunk as usize || (n - 1) > (usize::MAX - base - d.first_thunk as usize) / 8) {
            assert(desc_overflows(ds[i as int], base as nat));
            proof {
                lemma_first_where(ds, overflowing(base as nat), i as int);
            }
            return ImportListing { entries: out, fault: Some(IATSymbolError::OutOfBounds) };
        }
        let ghost before = out@;
        let ghost prev = import_positions(ds.take(i as int));
        proof {
            assert(ds.take(i + 1).drop_last() =~= ds.take(i as int));
            assert(ds.take(i + 1).last() == ds[i as int]);
        }
        let ghost now = import_positions(ds.take(i + 1));
        assert(now == prev + Seq::new(n as nat, |k: int| (i as int, k)));
        let mut k: usize = 0;
        while k < n
            invariant
                ds == import_descs_view(descs@),
                i < descs@.len(),
                d == &descs@[i as int],
                ds[i as int] == import_tables_view(*d),
                n == d.idents@.len(),
                n == d.thunks@.len(),
                n > 0 ==> base + d.first_thunk + 8 * (n - 1) <= usize::MAX,
                k <= n,
                out@.len() == before.len() + k,
                before.len() == prev.len(),
                forall|j: int| 0 <= j < before.len() ==> out@[j] == before[j],
                forall|j: int| 0 <= j < before.len() ==> is_import(#[trigger] before[j], ds[prev[j].0], base as nat, prev[j].1),
                forall|j: int| before.len() <= j < out@.len() ==> is_import(#[trigger] out@[j], ds[i as int], base as nat, j - before.len()),
            decreases n - k,
        {
            assert(base + d.first_thunk + 8 * k <= usize::MAX);
            let slot = base + d.first_thunk as usize + 8 * k;
            let ident = match &d.idents[k] {
                SymbolIdent::Name(s) => SymbolIdent::Name(s.clone()),
                SymbolIdent::Ordinal(o) => SymbolIdent::Ordinal(*o),
            };
            assert(ds[i as int].2[k as int] == ident_view(d.idents@[k as int]));
            out.push(ImportEntry { dll: d.dll.clone(), iat_entry: slot, orig_fn: d.thunks[k] as usize, ident });
            k = k + 1;
        }
        assert forall|j: int| 0 <= j < out@.len() implies is_import(#[trigger] out@[j], ds[now[j].0], base as nat, now[j].1) by {
            if j < before.len() {
                assert(out@[j] == before[j]);
                assert(now[j] == prev[j]);
            } else {
                assert(now[j] == (i as int, j - before.len()));
            }
        }
        i = i + 1;
    }
    assert(ds.take(i as int) =~= ds);
    assert(!(exists|m: int| 0 <= m < ds.len() && (overflowing(base as nat))(ds[m])));
    ImportListing { entries: out, fault: None }
}

/// The imports of the 64-bit module image `image`, mapped as loaded at
/// `base`, descriptor by descriptor, up to the first descriptor whose
/// entries cannot be placed: pelite reads its import descriptors, and each
/// import is paired with its address table entry. Where pelite cannot read
/// them, its error is returned.
pub fn import_listing(image: &[u8], base: usize) -> (r: Result<ImportListing, IATSymbolError>)
    ensures
        r is Ok ==> import_directory(image@) is Some,
        import_directory(image@) is None ==> r matches Err(IATSymbolError::Pelite(_)),
        r matches Err(e) ==> e is Pelite,
        import_directory(image@) matches Some(ds) ==> (r matches Ok(l) ==> imports_listed(l, ds, base as nat)),
{
    match read_import_directory(image) {
        Ok(descs) => {
            let s = descs.as_slice();
            assert(s@ == descs@);
            Ok(imports_from_tables(s, base))
        },
        Err(e) => Err(IATSymbolError::Pelite(e)),
    }
}

/// The imports of the 64-bit module image `image`, mapped as loaded at
/// `base`, descriptor by descriptor; refused where pelite cannot read the
/// descriptors or an entry lies past the end of the address space.
pub fn import_entries(image: &[u8], base: usize) -> (r: Result<Vec<ImportEntry>, IATSymbolError>)
    ensures
        r is Ok ==> import_directory(image@) is Some,
        import_directory(image@) is None ==> r matches Err(IATSymbolError::Pelite(_)),
        import_directory(image@) matches Some(ds) ==> (r matches Err(IATSymbolError::Pelite(_)) || ({
            let pos = import_positions(ds);
            &&& first_where(ds, overflowing(base as nat)) is Some ==> (r matches Err(IATSymbolError::OutOfBounds))
            &&& first_where(ds, overflowing(base as nat)) is None ==> (r matches Ok(v) && v@.len() == pos.len()
                && forall|j: int| 0 <= j < v@.len() ==> is_import(#[trigger] v@[j], ds[pos[j].0], base as nat, pos[j].1))
        })),
{
    let listing = import_listing(image, base)?;
    proof {
        if let Some(ds) = import_directory(image@) {
            assert(ds.take(ds.len() as int) =~= ds);
        }
    }
    match listing.fault {
        Some(e) => Err(e),
        None => Ok(listing.entries),
    }
}

} // verus!
