use native_memory_scripter::le::{push_le, read_le, write_le};
use native_memory_scripter::mem::aligned_bytes::{is_power_of_two, AlignedBytes, AlignedBytesError};
use native_memory_scripter::mem::backends::{find, find_offset};
use native_memory_scripter::mem::disasm::{
    assemble, assemble_ex, code_bytes_len, code_len, disassemble, disassemble_bytes,
    disassemble_bytes_count, disassemble_ex, disassemble_ex_count, AsmError, InstructionBytes,
};
use native_memory_scripter::mem::hook::{make_jmp, plan_hook, Trampoline};
use native_memory_scripter::mem::iat::{
    enum_iat_symbols, enum_iat_symbols_demangled, find_dll_iat_symbol,
    find_dll_iat_symbol_demangled, find_iat_symbol, find_iat_symbol_demangled, ident_matches,
    IATSymbolError, ImportEntry, SymbolIdent,
};
use native_memory_scripter::mem::memory::{
    alloc_in, deep_pointer, effective_size, prot_request, MemError,
};
use native_memory_scripter::mem::module::{
    enum_modules, find_module, module_from_entry, ModuleEntry, ModuleError,
};
use native_memory_scripter::mem::pe::{export_entries, exports_from_tables, import_entries, imports_from_tables, ExportTables, ImportTables};
use native_memory_scripter::mem::pattern::{hex_value, Pattern, PatternError};
use native_memory_scripter::mem::prot::{Prot, PAGE_EXECUTE_READ, PAGE_NOACCESS, PAGE_READWRITE};
use native_memory_scripter::mem::scan::{data_scan, sig_scan};
use native_memory_scripter::mem::scanner::{Scan, ScanError, Scanner, ScannerError};
use native_memory_scripter::mem::segment::{enum_segments, find_segment, MemoryRegion, Segment};
use native_memory_scripter::mem::symbol;
use native_memory_scripter::mem::symbols::{self, ExportEntry, SymbolError};
use native_memory_scripter::mem::vtable::{SlotWrite, VTable};
use native_memory_scripter::search::found_or_fault;
use native_memory_scripter::text::{str_contains, str_eq};

fn export(address: usize, name: &str) -> ExportEntry {
    ExportEntry { address, name: name.to_owned() }
}

fn import(dll: &str, iat_entry: usize, orig_fn: usize, ident: SymbolIdent) -> ImportEntry {
    ImportEntry { dll: dll.to_owned(), iat_entry, orig_fn, ident }
}

fn utf16_buf<const N: usize>(s: &str) -> [u16; N] {
    let mut buf = [0u16; N];
    for (i, u) in s.encode_utf16().enumerate() {
        buf[i] = u;
    }
    buf
}

// ---- little-endian helpers ----

#[test]
fn le_push_and_read_roundtrip() {
    let mut buf = Vec::new();
    push_le(&mut buf, 0x1122_3344, 4);
    assert_eq!(buf, vec![0x44, 0x33, 0x22, 0x11]);
    assert_eq!(read_le(&buf, 0, 4), 0x1122_3344);
    assert_eq!(read_le(&buf, 1, 2), 0x2233);
}

#[test]
fn le_write_in_place() {
    let mut buf = vec![0xAA; 6];
    write_le(&mut buf, 2, 0x0102, 2);
    assert_eq!(buf, vec![0xAA, 0xAA, 0x02, 0x01, 0xAA, 0xAA]);
}

// ---- protection flags ----

#[test]
fn prot_flags_roundtrip() {
    for p in [Prot::R, Prot::W, Prot::X, Prot::XR, Prot::XW, Prot::RW, Prot::XRW] {
        assert_eq!(Prot::from_flags(p.to_flags()), p);
    }
    assert_eq!(Prot::RW.to_flags(), PAGE_READWRITE);
    assert_eq!(Prot::from_flags(PAGE_EXECUTE_READ), Prot::XR);
    assert_eq!(Prot::from_flags(PAGE_NOACCESS), Prot::NoAccess);
    assert_eq!(Prot::from_flags(0x1234), Prot::NoAccess);
}

// ---- aligned bytes ----

#[test]
fn aligned_bytes_checks_layout() {
    assert!(is_power_of_two(32));
    assert!(!is_power_of_two(24));
    assert!(!is_power_of_two(0));
    let b = AlignedBytes::new(&[1, 2, 3], 32).unwrap();
    assert_eq!(b.as_slice(), &[1, 2, 3]);
    assert_eq!(b.len(), 3);
    assert!(matches!(AlignedBytes::new(&[1], 3), Err(AlignedBytesError::Layout)));
    assert!(matches!(AlignedBytes::new(&[1], 0), Err(AlignedBytesError::Layout)));
}

// ---- patterns ----

#[test]
fn pattern_from_str_parses_wildcards() {
    let p = Pattern::from_str("48 8B ?? 05 ?").unwrap();
    assert_eq!(p.unpadded_size, 5);
    assert_eq!(&p.data.as_slice()[..5], &[0x48, 0x8B, 0x00, 0x05, 0x00]);
    assert_eq!(&p.mask.as_slice()[..5], &[0xFF, 0xFF, 0x00, 0xFF, 0x00]);
    assert_eq!(p.data.len() % 32, 0);
    assert!(p.mask.as_slice()[5..].iter().all(|&b| b == 0));
}

#[test]
fn pattern_from_str_rejects_bad_text() {
    assert!(matches!(Pattern::from_str("4G"), Err(PatternError::Pat)));
    assert!(matches!(Pattern::from_str("123"), Err(PatternError::Pat)));
    // `??` then `?`: two wildcards
    assert_eq!(Pattern::from_str("???").unwrap().unpadded_size, 2);
}

#[test]
fn pattern_from_data_matches_every_byte() {
    let p = Pattern::from_data(&[1, 2, 3]);
    assert_eq!(p.unpadded_size, 3);
    assert_eq!(&p.mask.as_slice()[..3], &[0xFF, 0xFF, 0xFF]);
}

#[test]
fn pattern_from_data_with_mask() {
    let p = Pattern::from_data_with_mask(&[1, 2, 3], "x?x").unwrap();
    assert_eq!(&p.mask.as_slice()[..3], &[0xFF, 0x00, 0xFF]);
    assert_eq!(&p.data.as_slice()[..3], &[1, 2, 3]);
    assert_eq!(p.data.as_slice().len(), 32);
    assert!(p.data.as_slice()[3..].iter().all(|&b| b == 0));
    assert!(matches!(
        Pattern::from_data_with_mask(&[1, 2], "?x?"),
        Err(PatternError::MaskLen)
    ));
    assert!(matches!(
        Pattern::from_data_with_mask(&[1, 2], "x"),
        Err(PatternError::MaskLen)
    ));
    assert!(matches!(
        Pattern::from_data_with_mask(&[1, 2], "xy"),
        Err(PatternError::Mask)
    ));
}

#[test]
fn hex_digits() {
    assert_eq!(hex_value('a'), Some(10));
    assert_eq!(hex_value('F'), Some(15));
    assert_eq!(hex_value('7'), Some(7));
    assert_eq!(hex_value('g'), None);
}

// ---- scanning ----

#[test]
fn sig_scan_finds_first_match() {
    let binary = [0xab, 0xec, 0x48, 0x89, 0x5c, 0x24, 0xee, 0x48, 0x89, 0x6c];
    let result = sig_scan("48 89 5c 24 ?? 48 89 6c", 0x1000, &binary);
    assert_eq!(result, Some(Scan { addr: 0x1002 }));
    assert_eq!(sig_scan("48 89 5c 24 ?? 48 89 6d", 0x1000, &binary), None);
    assert_eq!(sig_scan("zz", 0x1000, &binary), None);
}

#[test]
fn sig_scan_pattern_running_off_the_end_does_not_match() {
    let binary = [0x00, 0x11, 0x22];
    assert_eq!(sig_scan("22 33", 0, &binary), None);
    assert_eq!(sig_scan("22 ??", 0, &binary), Some(Scan { addr: 2 }));
}

#[test]
fn data_scan_finds_exact_bytes() {
    let region = [1u8, 2, 3, 2, 3, 4];
    assert_eq!(data_scan(&[2, 3, 4], 0x10, &region), Some(Scan { addr: 0x13 }));
    assert_eq!(data_scan(&[9], 0x10, &region), None);
}

#[test]
fn scanner_new_and_find() {
    let scanner = Scanner::new("48 89 5c 24 ?? 48 89 6c").unwrap();
    let binary = [0xab, 0xec, 0x48, 0x89, 0x5c, 0x24, 0xee, 0x48, 0x89, 0x6c];
    assert_eq!(scanner.find(0x400, &binary), Ok(Scan { addr: 0x402 }));
    assert_eq!(scanner.find(0x400, &binary[3..]), Err(ScanError::NotFound));
    assert!(matches!(
        Scanner::new("4x"),
        Err(ScannerError::Pattern(PatternError::Pat))
    ));
}

#[test]
fn backend_find_offsets() {
    let p = Pattern::from_str("02 ?? 04").unwrap();
    assert_eq!(find_offset(&p, &[1, 2, 3, 4, 5]), Some(1));
    assert_eq!(find(&p, 100, &[1, 2, 3, 4, 5]), Some(101));
    assert_eq!(find(&p, 100, &[1, 2, 3]), None);
}

// ---- jumps and hooks ----

#[test]
fn make_jmp_relative_when_in_reach() {
    let jmp = make_jmp(0x1000, 0x2000, false);
    assert_eq!(jmp.as_slice(), &[0xE9, 0xFB, 0x0F, 0x00, 0x00]);
}

#[test]
fn make_jmp_absolute_when_forced_or_backwards() {
    let jmp = make_jmp(0x1000, 0x2000, true);
    assert_eq!(
        jmp.as_slice(),
        &[0xFF, 0x25, 0, 0, 0, 0, 0x00, 0x20, 0, 0, 0, 0, 0, 0]
    );
    let back = make_jmp(0x2000, 0x1000, false);
    assert_eq!(back.len(), 14);
    assert_eq!(&back.as_slice()[6..], &0x1000u64.to_le_bytes());
}

#[test]
fn plan_hook_displaces_whole_instructions() {
    // push rbp; mov rbp, rsp; sub rsp, 0x20; ... nops
    let mut code = vec![0x55, 0x48, 0x89, 0xE5, 0x48, 0x83, 0xEC, 0x20];
    code.extend(std::iter::repeat(0x90).take(40));
    let plan = plan_hook(0x1000, 0x2000, &code).unwrap();
    assert_eq!(plan.patch, vec![0xE9, 0xFB, 0x0F, 0x00, 0x00]);
    assert_eq!(plan.code_len, 8);
    assert_eq!(&plan.trampoline[..8], &code[..8]);
    assert_eq!(&plan.trampoline[8..10], &[0xFF, 0x25]);
    assert_eq!(&plan.trampoline[14..], &0x1008u64.to_le_bytes());

    let t = Trampoline::new(0x1000, &plan, 0x7000);
    assert_eq!(t.address, 0x7000);
    let restore = t.unhook();
    assert_eq!((restore.src, restore.dst, restore.len), (0x7000, 0x1000, 8));
}

// ---- disassembly ----

#[test]
fn disassemble_first_instruction() {
    let inst = disassemble(&[0x48, 0x89, 0xE5, 0x90]).unwrap();
    assert_eq!(inst.size, 3);
    assert_eq!(inst.bytes, vec![0x48, 0x89, 0xE5]);
    assert_eq!(inst.mnemonic.as_deref(), Some("mov"));
}

#[test]
fn disassemble_all_and_count() {
    let code = [0x55, 0x48, 0x89, 0xE5, 0xC3];
    let all = disassemble_bytes(&code).unwrap();
    assert_eq!(all.len(), 3);
    assert_eq!(all.to_bytes(), code.to_vec());
    let one = disassemble_bytes_count(&code, 1).unwrap();
    assert_eq!(one.len(), 1);
    assert_eq!(one[0].bytes, vec![0x55]);
}

#[test]
fn disassemble_ex_refuses_null() {
    assert!(matches!(
        disassemble_ex(0, &[0x90], 0x1000),
        Err(AsmError::BadAddress)
    ));
    let v = disassemble_ex(0x1000, &[0x90], 0x1000).unwrap();
    assert_eq!(v[0].address, 0x1000);
}

#[test]
fn code_lengths_cover_whole_instructions() {
    let mut code = vec![0x55, 0x48, 0x89, 0xE5, 0x48, 0x83, 0xEC, 0x20];
    code.extend(std::iter::repeat(0x90).take(20));
    assert_eq!(code_bytes_len(&code, 5).unwrap(), 8);
    assert_eq!(code_len(0x1000, &code, 5).unwrap(), 8);
    assert!(matches!(code_len(0, &code, 5), Err(AsmError::BadAddress)));
}

#[test]
fn assemble_checks_and_disassembles() {
    assert!(matches!(assemble("", Ok(vec![0x90])), Err(AsmError::BadAsm)));
    assert!(matches!(assemble("nop", Ok(vec![])), Err(AsmError::BadAsm)));
    match assemble("bad", Err("unknown mnemonic".to_owned())) {
        Err(AsmError::Keystone(m)) => assert_eq!(m, "unknown mnemonic"),
        other => panic!("unexpected {other:?}"),
    }
    let inst = assemble("ret", Ok(vec![0xC3])).unwrap();
    assert_eq!(inst.bytes, vec![0xC3]);
    let insts = assemble_ex("push rbp; ret", 0x500, Ok(vec![0x55, 0xC3])).unwrap();
    assert_eq!(insts.len(), 2);
    assert_eq!(insts[1].address, 0x501);
}

// ---- memory decisions ----

#[test]
fn alloc_in_computes_limits() {
    let r = alloc_in(0x10000, 0x40000, 0, 0x10000, 0x7FFF_0000, 0x10000).unwrap();
    assert_eq!((r.lowest, r.highest), (0x10000, 0x2FFFF));
}

#[test]
fn alloc_in_null_bounds_mean_no_limit() {
    let r = alloc_in(0, 0, 0, 0x10000, 0x7FFE_FFFF, 0x10000).unwrap();
    assert_eq!((r.lowest, r.highest), (0x10000, 0x7FFD_FFFF));
    let r = alloc_in(0x20000, 0, 0, 0x10000, 0x7FFE_FFFF, 0x10000).unwrap();
    assert_eq!((r.lowest, r.highest), (0x20000, 0x7FFD_FFFF));
    let r = alloc_in(0, 0x40000, 0, 0x10000, 0x7FFE_FFFF, 0x10000).unwrap();
    assert_eq!((r.lowest, r.highest), (0x10000, 0x2FFFF));
}

#[test]
fn alloc_in_errors() {
    assert!(matches!(
        alloc_in(0x20000, 0x10000, 0, 0, usize::MAX, 0x10000),
        Err(MemError::Custom(_))
    ));
    assert!(matches!(
        alloc_in(0x10000, 0x40000, 3, 0, usize::MAX, 0x10000),
        Err(MemError::IncorrectAlign)
    ));
    assert!(matches!(
        alloc_in(0x10001, 0x10005, 0, 0, usize::MAX, 0x10000),
        Err(MemError::GranularityNotWithinLimits)
    ));
    assert!(matches!(
        alloc_in(0x10000, 0x40000, 0, 0x20000, usize::MAX, 0x10000),
        Err(MemError::NotWithinAppAddressLimits)
    ));
}

#[test]
fn prot_request_and_sizes() {
    assert!(matches!(prot_request(0, 10, 4096), Err(MemError::BadAddress)));
    assert_eq!(prot_request(0x1000, 0, 4096).unwrap(), 4096);
    assert_eq!(prot_request(0x1000, 10, 4096).unwrap(), 10);
    assert_eq!(effective_size(0, 4096), 4096);
}

#[test]
fn deep_pointer_follows_reads() {
    // memory: 0x100 -> 0x200, 0x208 -> 0x300
    let read = |a: usize| match a {
        0x100 => 0x200,
        0x208 => 0x300,
        _ => 0,
    };
    assert_eq!(deep_pointer(0x100, &[1, 2], read).unwrap(), 0x310);
    assert!(matches!(deep_pointer(0, &[1], read), Err(MemError::BadAddress)));
    assert!(matches!(deep_pointer(0x100, &[], read), Err(MemError::BadAddress)));
}

// ---- vtables ----

#[test]
fn vtable_hook_unhook_reset() {
    let mut vt = VTable::new(0x1000);
    let w = vt.hook(2, 0xAAAA, 0xBBBB);
    assert_eq!(w, SlotWrite { addr: 0x1010, value: 0xBBBB });
    // hooking again keeps the first original
    vt.hook(2, 0xBBBB, 0xCCCC);
    assert_eq!(vt.get_original(2), Some(0xAAAA));
    assert_eq!(vt.get_original(3), None);
    let u = vt.unhook(2).unwrap();
    assert_eq!(u, SlotWrite { addr: 0x1010, value: 0xAAAA });
    assert_eq!(vt.unhook(2), None);
    vt.hook(0, 0x11, 0x22);
    vt.hook(1, 0x33, 0x44);
    let writes = vt.reset();
    assert_eq!(
        writes,
        vec![
            SlotWrite { addr: 0x1000, value: 0x11 },
            SlotWrite { addr: 0x1008, value: 0x33 }
        ]
    );
    assert_eq!(vt.get_original(0), None);
}

// ---- text ----

#[test]
fn text_equality_and_containment() {
    assert!(str_eq("abc", "abc"));
    assert!(!str_eq("abc", "abd"));
    assert!(str_contains("hello world", "o w"));
    assert!(str_contains("hello", ""));
    assert!(!str_contains("hello", "low"));
    assert!(str_contains("Grüße", "üß"));
}

// ---- symbols ----

#[test]
fn symbols_enum_and_find() {
    let exports = vec![export(0x10, "foo"), export(0x20, "bar"), export(0x30, "foo")];
    let syms = symbols::enum_symbols(&exports);
    assert_eq!(syms.len(), 3);
    assert_eq!(syms[1].name, "bar");
    assert_eq!(syms[1].address, 0x20);
    let found = symbols::find_symbol_address(&exports, "foo").unwrap();
    assert_eq!(found.address, 0x10);
    assert!(symbols::find_symbol_address(&exports, "fo").is_none());
}

#[test]
fn symbols_demangle() {
    let d = symbols::demangle_symbol("_ZN3foo3barEv").unwrap();
    assert!(d.contains("foo::bar"));
    assert_eq!(symbols::demangle_symbol("not mangled at all"), Some("not mangled at all".to_owned()));
    assert_eq!(symbols::demangle_symbol("CreateFileW"), Some("CreateFileW".to_owned()));
    let exports = vec![export(0x10, "plain"), export(0x20, "_ZN3foo3barEv")];
    let syms = symbols::enum_symbols_demangled(&exports);
    assert_eq!(syms[0].name, "plain");
    assert_eq!(syms[1].name, d);
    let found = symbols::find_symbol_address_demangled(&exports, "foo::bar").unwrap();
    assert_eq!(found.address, 0x20);
    assert_eq!(found.name, d);
    // names that cannot be demangled are searched as they are
    let plain = symbols::find_symbol_address_demangled(&exports, "lai").unwrap();
    assert_eq!((plain.name.as_str(), plain.address), ("plain", 0x10));
    let exports = vec![export(0x30, "CreateFileW")];
    let found = symbols::find_symbol_address_demangled(&exports, "CreateFile").unwrap();
    assert_eq!((found.name.as_str(), found.address), ("CreateFileW", 0x30));
}

#[test]
fn symbol_first_form() {
    let exports = vec![export(0x10, "alpha"), export(0x20, "_ZN3foo3barEv")];
    let s = symbol::find_symbol_address(&exports, "alpha").unwrap();
    assert_eq!((s.name(), s.address()), ("alpha", 0x10));
    assert!(matches!(
        symbol::find_symbol_address(&exports, "beta"),
        Err(symbol::SymbolError::SymbolNotFound)
    ));
    assert_eq!(symbol::demangle_symbol("_ZN3foo3barEv"), "foo::bar");
    assert_eq!(symbol::demangle_symbol("alpha"), "alpha");
    let d = symbol::find_symbol_address_demangled(&exports, "alph").unwrap();
    assert_eq!(d.address(), 0x10);
    let all = symbol::enum_symbols_demangled(&exports);
    assert_eq!(all[1].name(), "foo::bar");
    assert_eq!(symbol::enum_symbols(&exports)[1].name(), "_ZN3foo3barEv");
}

// ---- segments ----

#[test]
fn segments_skip_free_regions() {
    let regions = [
        MemoryRegion { base: 0, size: 0x1000, free: true, alloc_protect: 0 },
        MemoryRegion { base: 0x1000, size: 0x2000, free: false, alloc_protect: PAGE_READWRITE },
        MemoryRegion { base: 0x3000, size: 0x1000, free: false, alloc_protect: PAGE_EXECUTE_READ },
    ];
    let segs = enum_segments(&regions);
    assert_eq!(
        segs,
        vec![
            Segment { base: 0x1000, end: 0x3000, size: 0x2000, prot: Prot::RW },
            Segment { base: 0x3000, end: 0x4000, size: 0x1000, prot: Prot::XR },
        ]
    );
    assert_eq!(find_segment(&regions, 0x3500).unwrap().prot, Prot::XR);
    assert_eq!(find_segment(&regions, 0x0500), None);
    assert_eq!(find_segment(&regions, 0x4000), None);
}

// ---- modules ----

fn entry(name: &str, path: &str, base: usize, size: u32) -> ModuleEntry {
    ModuleEntry { name: utf16_buf::<256>(name), path: utf16_buf::<260>(path), base, size }
}

#[test]
fn modules_from_snapshot() {
    let m = module_from_entry(&entry("game.exe", "C:\\game\\game.exe", 0x400000, 0x1000)).unwrap();
    assert_eq!(m.name, "game.exe");
    assert_eq!(m.path, "C:\\game\\game.exe");
    assert_eq!((m.base, m.end, m.size), (0x400000, 0x401000, 0x1000));
    m.unload();
}

#[test]
fn modules_enum_and_find() {
    let entries = vec![
        entry("game.exe", "C:\\game.exe", 0x400000, 0x1000),
        entry("kernel32.dll", "C:\\kernel32.dll", 0x7000_0000, 0x2000),
    ];
    let all = enum_modules(&entries).unwrap();
    assert_eq!(all.len(), 2);
    assert_eq!(all[1].name, "kernel32.dll");
    let k = find_module(&entries, "kernel32.dll").unwrap();
    assert_eq!(k.base, 0x7000_0000);
    assert!(matches!(find_module(&entries, "KERNEL32.DLL"), Err(ModuleError::NotFound)));
}

#[test]
fn modules_bad_utf16_fails() {
    let mut bad = entry("x.dll", "C:\\x.dll", 0x1000, 0x10);
    bad.name[0] = 0xD800; // lone surrogate
    assert!(matches!(module_from_entry(&bad), Err(ModuleError::Utf16Conversion(_))));
    let entries = vec![bad.clone(), entry("y.dll", "C:\\y.dll", 0x2000, 0x10)];
    assert!(matches!(enum_modules(&entries), Err(ModuleError::Utf16Conversion(_))));
    assert!(matches!(find_module(&entries, "y.dll"), Err(ModuleError::Utf16Conversion(_))));
}

#[test]
fn module_name_without_terminator_takes_255_units() {
    let mut e = entry("", "C:\\a", 0x1000, 0x10);
    e.name = [u16::from(b'a'); 256];
    let m = module_from_entry(&e).unwrap();
    assert_eq!(m.name.len(), 255);
}

// ---- import address table ----

fn imports() -> Vec<ImportEntry> {
    vec![
        import("KERNEL32.dll", 0x5000, 0x7000_1000, SymbolIdent::Name("Sleep".to_owned())),
        import("USER32.dll", 0x5008, 0x7100_2000, SymbolIdent::Ordinal(12)),
        import("game.dll", 0x5010, 0x7200_3000, SymbolIdent::Name("_ZN3foo3barEv".to_owned())),
        import("other.dll", 0x5018, 0x7300_4000, SymbolIdent::Name("Sleep".to_owned())),
    ]
}

#[test]
fn iat_enum() {
    let syms = enum_iat_symbols(&imports());
    assert_eq!(syms.len(), 4);
    assert_eq!(syms[1].ident, SymbolIdent::Ordinal(12));
    assert_eq!(syms[2].iat_entry, 0x5010);
    let dem = enum_iat_symbols_demangled(&imports());
    assert_eq!(dem[2].ident, SymbolIdent::Name("foo::bar()".to_owned()));
    assert_eq!(dem[0].ident, SymbolIdent::Name("Sleep".to_owned()));
    assert_eq!(dem[1].ident, SymbolIdent::Ordinal(12));
}

#[test]
fn iat_find() {
    let im = imports();
    let s = find_iat_symbol(&im, &SymbolIdent::Name("Sleep".to_owned())).unwrap();
    assert_eq!(s.dll, "KERNEL32.dll");
    let o = find_iat_symbol(&im, &SymbolIdent::Ordinal(12)).unwrap();
    assert_eq!(o.orig_fn, 0x7100_2000);
    assert!(find_iat_symbol(&im, &SymbolIdent::Ordinal(13)).is_none());
    let d = find_dll_iat_symbol(&im, "other.dll", &SymbolIdent::Name("Sleep".to_owned())).unwrap();
    assert_eq!(d.iat_entry, 0x5018);
    assert!(find_dll_iat_symbol(&im, "OTHER.dll", &SymbolIdent::Name("Sleep".to_owned())).is_none());
}

#[test]
fn iat_find_demangled() {
    let im = imports();
    let s = find_iat_symbol_demangled(&im, "foo::b").unwrap();
    assert_eq!(s.iat_entry, 0x5010);
    assert_eq!(s.ident, SymbolIdent::Name("_ZN3foo3barEv".to_owned()));
    let l = find_iat_symbol_demangled(&im, "eep").unwrap();
    assert_eq!(l.dll, "KERNEL32.dll");
    let d = find_dll_iat_symbol_demangled(&im, "other.dll", "Sle").unwrap();
    assert_eq!(d.iat_entry, 0x5018);
    assert!(find_dll_iat_symbol_demangled(&im, "USER32.dll", "1").is_none());
}

#[test]
fn iat_hook_then_unhook_restores() {
    let s = find_iat_symbol(&imports(), &SymbolIdent::Ordinal(12)).unwrap();
    assert_eq!(s.fn_addr_slot(), 0x5008);
    let h = s.hook(0xDEAD);
    assert_eq!(h, SlotWrite { addr: 0x5008, value: 0xDEAD });
    let u = s.unhook();
    assert_eq!(u, SlotWrite { addr: 0x5008, value: 0x7100_2000 });
    // unhooking writes back the original even after the public fields change
    let mut s2 = find_iat_symbol(&imports(), &SymbolIdent::Ordinal(12)).unwrap();
    s2.orig_fn = 0;
    s2.iat_entry = 0;
    assert_eq!(s2.unhook(), SlotWrite { addr: 0x5008, value: 0x7100_2000 });
}

#[test]
fn iat_ident_matching() {
    assert!(ident_matches(&SymbolIdent::Ordinal(3), &SymbolIdent::Ordinal(3)));
    assert!(!ident_matches(&SymbolIdent::Ordinal(3), &SymbolIdent::Name("3".to_owned())));
    assert!(ident_matches(
        &SymbolIdent::Name("a".to_owned()),
        &SymbolIdent::Name("a".to_owned())
    ));
}

#[test]
fn disassemble_ex_count_limits_instructions() {
    let code = [0x55, 0x48, 0x89, 0xE5, 0xC3];
    let two = disassemble_ex_count(0x2000, &code, 0x2000, 2).unwrap();
    assert_eq!(two.len(), 2);
    assert_eq!(two[1].address, 0x2001);
    assert!(matches!(
        disassemble_ex_count(0, &code, 0x2000, 2),
        Err(AsmError::BadAddress)
    ));
}

#[test]
fn module_search_agrees_with_listing() {
    let entries = vec![
        entry("a.dll", "C:\\a.dll", 0x1000, 0x10),
        entry("b.dll", "C:\\b1.dll", 0x2000, 0x10),
        entry("b.dll", "C:\\b2.dll", 0x3000, 0x10),
    ];
    let listed = enum_modules(&entries).unwrap();
    let first_b = listed.iter().find(|m| m.name == "b.dll").unwrap();
    let found = find_module(&entries, "b.dll").unwrap();
    assert_eq!(found.path, first_b.path);
    assert_eq!(found.base, 0x2000);
}

#[test]
fn symbol_and_instruction_text() {
    let exports = vec![export(0x7ff6_1000, "alpha")];
    let s = symbol::find_symbol_address(&exports, "alpha").unwrap();
    assert_eq!(s.to_string(), "Symbol { name: alpha, address: 0x7ff61000 }");
    let inst = disassemble(&[0x48, 0x89, 0xE5]).unwrap();
    assert_eq!(inst.to_string(), "mov rbp, rsp @ 0x0 -> [48, 89, e5]");
    let mut unnamed = inst.clone();
    unnamed.op_str = None;
    unnamed.address = 0x1a;
    assert_eq!(unnamed.to_string(), "?? ?? @ 0x1a -> [48, 89, e5]");
}

#[test]
fn trampoline_text_pads_address() {
    let mut code = vec![0x55, 0x48, 0x89, 0xE5, 0x48, 0x83, 0xEC, 0x20];
    code.extend(std::iter::repeat(0x90).take(40));
    let plan = plan_hook(0x1000, 0x2000, &code).unwrap();
    let t = Trampoline::new(0x1000, &plan, 0x7ff0);
    assert_eq!(t.size, 22);
    assert_eq!(t.to_string(), "Trampoline { address: 0x0000000000007ff0, size: 22 }");
}

#[test]
fn scan_text_shows_pointer() {
    assert_eq!(Scan { addr: 0x1a2b }.to_string(), "Scan { addr: 0x1a2b }");
    assert_eq!(Scan { addr: 0 }.to_string(), "Scan { addr: 0x0 }");
}

// ---- export and import tables ----

fn put(image: &mut [u8], at: usize, bytes: &[u8]) {
    image[at..at + bytes.len()].copy_from_slice(bytes);
}

/// A mapped 64-bit image of 0x1000 bytes with two named exports, whose name
/// indices are not in name order, and one import descriptor with an import
/// by name and one by ordinal.
fn test_image() -> Vec<u8> {
    let mut img = vec![0u8; 0x1000];
    put(&mut img, 0, &0x5A4Du16.to_le_bytes());
    put(&mut img, 0x3C, &0x40u32.to_le_bytes());
    put(&mut img, 0x40, b"PE\0\0");
    put(&mut img, 0x44, &0x8664u16.to_le_bytes());
    put(&mut img, 0x54, &0xF0u16.to_le_bytes());
    put(&mut img, 0x56, &0x2022u16.to_le_bytes());
    put(&mut img, 0x58, &0x20Bu16.to_le_bytes());
    put(&mut img, 0x70, &0x1_8000_0000u64.to_le_bytes());
    put(&mut img, 0x78, &0x1000u32.to_le_bytes());
    put(&mut img, 0x7C, &0x200u32.to_le_bytes());
    put(&mut img, 0x90, &0x1000u32.to_le_bytes());
    put(&mut img, 0x94, &0x200u32.to_le_bytes());
    put(&mut img, 0xC4, &16u32.to_le_bytes());
    put(&mut img, 0xC8, &0x200u32.to_le_bytes());
    put(&mut img, 0xCC, &0x100u32.to_le_bytes());
    put(&mut img, 0xD0, &0x300u32.to_le_bytes());
    put(&mut img, 0xD4, &0x28u32.to_le_bytes());
    // export directory
    put(&mut img, 0x200 + 20, &3u32.to_le_bytes());
    put(&mut img, 0x200 + 24, &2u32.to_le_bytes());
    put(&mut img, 0x200 + 28, &0x240u32.to_le_bytes());
    put(&mut img, 0x200 + 32, &0x260u32.to_le_bytes());
    put(&mut img, 0x200 + 36, &0x270u32.to_le_bytes());
    for (k, f) in [0x500u32, 0x600, 0x700].iter().enumerate() {
        put(&mut img, 0x240 + 4 * k, &f.to_le_bytes());
    }
    put(&mut img, 0x260, &0x280u32.to_le_bytes());
    put(&mut img, 0x264, &0x290u32.to_le_bytes());
    put(&mut img, 0x270, &2u16.to_le_bytes());
    put(&mut img, 0x272, &0u16.to_le_bytes());
    put(&mut img, 0x280, b"Alpha\0");
    put(&mut img, 0x290, b"Beta\0");
    // import directory: one descriptor, then an empty one
    put(&mut img, 0x300, &0x340u32.to_le_bytes());
    put(&mut img, 0x30C, &0x3A0u32.to_le_bytes());
    put(&mut img, 0x310, &0x360u32.to_le_bytes());
    put(&mut img, 0x340, &0x380u64.to_le_bytes());
    put(&mut img, 0x348, &0x8000_0000_0000_0007u64.to_le_bytes());
    put(&mut img, 0x360, &0x1111u64.to_le_bytes());
    put(&mut img, 0x368, &0x2222u64.to_le_bytes());
    put(&mut img, 0x382, b"Gamma\0");
    put(&mut img, 0x3A0, b"KERNEL32.dll\0");
    img
}

/// The image copied to an address aligned to 16, as a loaded image is.
fn aligned(image: &[u8], buf: &mut Vec<u8>) -> std::ops::Range<usize> {
    buf.clear();
    buf.resize(image.len() + 16, 0);
    let off = (16 - (buf.as_ptr() as usize % 16)) % 16;
    buf[off..off + image.len()].copy_from_slice(image);
    off..off + image.len()
}

#[test]
fn export_entries_pair_names_by_index() {
    let mut buf = Vec::new();
    let r = aligned(&test_image(), &mut buf);
    let exports = export_entries(&buf[r], 0x7ff0_0000_0000).unwrap();
    assert_eq!(exports.len(), 2);
    assert_eq!((exports[0].name.as_str(), exports[0].address), ("Alpha", 0x7ff0_0000_0700));
    assert_eq!((exports[1].name.as_str(), exports[1].address), ("Beta", 0x7ff0_0000_0500));
}

#[test]
fn import_entries_pair_imports_with_slots() {
    let mut buf = Vec::new();
    let r = aligned(&test_image(), &mut buf);
    let imports = import_entries(&buf[r], 0x7ff0_0000_0000).unwrap();
    assert_eq!(imports.len(), 2);
    assert_eq!(imports[0].dll, "KERNEL32.dll");
    assert_eq!((imports[0].iat_entry, imports[0].orig_fn), (0x7ff0_0000_0360, 0x1111));
    assert_eq!(imports[0].ident, SymbolIdent::Name("Gamma".to_owned()));
    assert_eq!((imports[1].iat_entry, imports[1].orig_fn), (0x7ff0_0000_0368, 0x2222));
    assert_eq!(imports[1].ident, SymbolIdent::Ordinal(7));
}

#[test]
fn table_reading_refuses_bad_images() {
    let mut img = test_image();
    img[0] = 0;
    let mut buf = Vec::new();
    let r = aligned(&img, &mut buf);
    assert!(matches!(export_entries(&buf[r.clone()], 0x1000), Err(SymbolError::Pelite(_))));
    assert!(matches!(import_entries(&buf[r], 0x1000), Err(IATSymbolError::Pelite(_))));
}

#[test]
fn exports_from_tables_faults() {
    let tables = |functions: Vec<u32>, indices: Vec<u16>| ExportTables {
        functions,
        names: vec!["a".to_owned(), "b".to_owned()],
        name_indices: indices,
        name_fault: None,
    };
    let ok = exports_from_tables(tables(vec![0x10, 0x20], vec![1, 0]), 0x100, 0x5000);
    assert!(ok.fault.is_none());
    assert_eq!((ok.entries[0].name.as_str(), ok.entries[0].address), ("a", 0x5020));
    assert_eq!((ok.entries[1].name.as_str(), ok.entries[1].address), ("b", 0x5010));
    // the exports before the first fault are kept
    let l = exports_from_tables(tables(vec![0x10], vec![0, 1]), 0x100, 0);
    assert_eq!(l.entries.len(), 1);
    assert_eq!((l.entries[0].name.as_str(), l.entries[0].address), ("a", 0x10));
    assert!(matches!(l.fault, Some(SymbolError::OutOfBounds)));
    let l = exports_from_tables(tables(vec![0, 0x10], vec![1, 0]), 0x100, 0);
    assert_eq!(l.entries.len(), 1);
    assert!(matches!(l.fault, Some(SymbolError::NullAddress)));
    let l = exports_from_tables(tables(vec![0x10, 0x200], vec![0, 1]), 0x100, 0);
    assert!(matches!(l.fault, Some(SymbolError::OutOfBounds)));
    let l = exports_from_tables(tables(vec![0x10, 0x20], vec![0, 1]), 0x100, usize::MAX - 0x18);
    assert_eq!(l.entries.len(), 1);
    assert!(matches!(l.fault, Some(SymbolError::OutOfBounds)));
    let l = exports_from_tables(tables(vec![0x10, 0x20], vec![1, 0]), 0x100, 0);
    assert!(l.fault.is_none());
    // a search over the listing finds a match before the fault
    let l = exports_from_tables(tables(vec![0x10], vec![0, 1]), 0x100, 0);
    let found = found_or_fault(symbols::find_symbol_address(&l.entries, "a"), l.fault).unwrap().unwrap();
    assert_eq!(found.address, 0x10);
    let l = exports_from_tables(tables(vec![0x10], vec![0, 1]), 0x100, 0);
    assert!(matches!(
        found_or_fault(symbols::find_symbol_address(&l.entries, "b"), l.fault),
        Err(SymbolError::OutOfBounds)
    ));
}

#[test]
fn imports_from_tables_flatten_descriptors() {
    let descs = vec![
        ImportTables { dll: "a.dll".to_owned(), first_thunk: 0x100, idents: vec![SymbolIdent::Ordinal(3)], thunks: vec![0xAA] },
        ImportTables { dll: "b.dll".to_owned(), first_thunk: 0x200, idents: vec![], thunks: vec![] },
        ImportTables {
            dll: "c.dll".to_owned(),
            first_thunk: 0x300,
            idents: vec![SymbolIdent::Name("x".to_owned()), SymbolIdent::Name("y".to_owned())],
            thunks: vec![0xBB, 0xCC],
        },
    ];
    let l = imports_from_tables(&descs, 0x10000);
    assert!(l.fault.is_none());
    let v = l.entries;
    assert_eq!(v.len(), 3);
    assert_eq!((v[0].dll.as_str(), v[0].iat_entry, v[0].orig_fn), ("a.dll", 0x10100, 0xAA));
    assert_eq!((v[2].dll.as_str(), v[2].iat_entry, v[2].orig_fn), ("c.dll", 0x10308, 0xCC));
    assert_eq!(v[2].ident, SymbolIdent::Name("y".to_owned()));
    // the descriptors before the one that overflows are kept
    let l = imports_from_tables(&descs, usize::MAX - 0x200);
    assert_eq!(l.entries.len(), 1);
    assert_eq!(l.entries[0].dll, "a.dll");
    assert!(matches!(l.fault, Some(IATSymbolError::OutOfBounds)));
    assert_eq!(found_or_fault(Some(1), l.fault).unwrap(), Some(1));
}

#[test]
fn exports_from_tables_name_fault() {
    let tables = |functions: Vec<u32>| ExportTables {
        functions,
        names: vec!["a".to_owned()],
        name_indices: vec![0, 1],
        name_fault: Some(pelite::Error::Bounds),
    };
    let l = exports_from_tables(tables(vec![0x10, 0x20]), 0x100, 0);
    assert_eq!(l.entries.len(), 1);
    assert!(matches!(l.fault, Some(SymbolError::Pelite(pelite::Error::Bounds))));
    // the function of the unreadable name is checked first
    let l = exports_from_tables(tables(vec![0x10]), 0x100, 0);
    assert!(matches!(l.fault, Some(SymbolError::OutOfBounds)));
}

#[test]
fn found_or_fault_outcomes() {
    assert_eq!(found_or_fault::<u8, &str>(Some(3), Some("bad")), Ok(Some(3)));
    assert_eq!(found_or_fault::<u8, &str>(None, Some("bad")), Err("bad"));
    assert_eq!(found_or_fault::<u8, &str>(None, None), Ok(None));
}

#[test]
fn make_jmp_relative_only_within_signed_reach() {
    // a displacement of 2^31 does not fit a signed 32-bit displacement
    let jmp = make_jmp(0x1000, 0x8000_1005, false);
    let mut expected = vec![0xFF, 0x25, 0, 0, 0, 0];
    expected.extend_from_slice(&0x8000_1005u64.to_le_bytes());
    assert_eq!(jmp.as_slice(), expected.as_slice());
    // the largest displacement that does
    let jmp = make_jmp(0x1000, 0x8000_1004, false);
    assert_eq!(jmp.as_slice(), &[0xE9, 0xFF, 0xFF, 0xFF, 0x7F]);
    let jmp = make_jmp(0, 0x1_0000_0005, false);
    assert_eq!(jmp.len(), 14);
}
