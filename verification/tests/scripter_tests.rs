use native_memory_scripter::scripter::arch::Arch;
use native_memory_scripter::scripter::args::{
    get_layout, Arg, ArgLayout, ArgMemory, ArgValue, FillError, FillFault, Type,
};
use native_memory_scripter::scripter::config::{Config, Dev, Log};
use native_memory_scripter::scripter::info::{str_to_u16, Version, VersionError};
use native_memory_scripter::scripter::interpreter::{plan_script, LineBuffer};
use native_memory_scripter::scripter::jit::{jit_signature, SignatureError};
use native_memory_scripter::scripter::logging::StripAnsiWriter;
use native_memory_scripter::scripter::ret::Ret;
use native_memory_scripter::scripter::trampoline::{Trampoline, TrampolineError};

fn int_value(v: i128) -> ArgValue {
    ArgValue {
        float: Some(((v as f64).to_bits(), (v as f32).to_bits())),
        int: Some((v < 0, v.unsigned_abs())),
        boolean: None,
        text: None,
    }
}

fn float(f: f64) -> ArgValue {
    ArgValue { float: Some((f.to_bits(), (f as f32).to_bits())), int: None, boolean: None, text: None }
}

fn boolean(b: bool) -> ArgValue {
    ArgValue { float: None, int: Some((false, b as u128)), boolean: Some(b), text: None }
}

fn text(s: &str) -> ArgValue {
    ArgValue { float: None, int: None, boolean: None, text: Some(s.to_owned()) }
}

#[test]
fn layout_of_mixed_arguments() {
    let (size, align, offsets) = get_layout(&[Type::U8, Type::U32, Type::U16, Type::F64]).unwrap();
    assert_eq!(offsets, vec![0, 4, 8, 16]);
    assert_eq!((size, align), (24, 8));
    let (size, align, offsets) = get_layout(&[Type::U8, Type::U8, Type::U8]).unwrap();
    assert_eq!((size, align, offsets), (3, 1, vec![0, 1, 2]));
    let (size, align, _) = get_layout(&[Type::U64, Type::U8]).unwrap();
    assert_eq!((size, align), (16, 8));
}

#[test]
fn layout_refuses_empty_and_void() {
    assert!(get_layout(&[]).is_none());
    assert!(get_layout(&[Type::U8, Type::Void]).is_none());
    assert!(ArgLayout::new(&[]).is_none());
    assert!(ArgMemory::new(&[Type::Void]).is_none());
}

#[test]
fn type_sizes() {
    assert_eq!(Type::Void.size(), 0);
    assert_eq!(Type::Bool.size(), 1);
    assert_eq!(Type::WChar.size(), 2);
    assert_eq!(Type::F32.size(), 4);
    assert_eq!(Type::Ptr.size(), 8);
    assert_eq!(Type::I128.size(), 16);
}

#[test]
fn fill_then_read_back() {
    let types = [
        Type::U8,
        Type::I16,
        Type::F32,
        Type::F64,
        Type::I64,
        Type::Bool,
        Type::Char,
        Type::WChar,
        Type::Ptr,
        Type::U128,
        Type::I8,
    ];
    let mut m = ArgMemory::new(&types).unwrap();
    let values = vec![
        int_value(200),
        int_value(-2),
        float(1.5),
        float(-2.25),
        int_value(-123456789),
        boolean(true),
        text("A"),
        text("é"),
        int_value(0xDEAD_BEEF),
        int_value(i128::MAX),
        int_value(-128),
    ];
    m.fill(&values).unwrap();
    let layout = m.layout().clone();
    assert_eq!(m.offsets(), layout.offsets());
    let mut it = layout.iter(m.mem());
    assert_eq!(it.next(), Some(Arg::U8(200)));
    assert_eq!(it.next(), Some(Arg::I16(-2)));
    let f = it.next().unwrap();
    assert_eq!(f32::from_bits(f.as_f32_bits()), 1.5);
    let d = it.next().unwrap();
    assert_eq!(f64::from_bits(d.as_f64_bits()), -2.25);
    assert_eq!(it.next().unwrap().as_i64(), -123456789);
    assert!(it.next().unwrap().as_bool());
    assert_eq!(it.next().unwrap().as_char(), 'A');
    assert_eq!(it.next().unwrap().as_wchar(), 'é');
    assert_eq!(it.next().unwrap().as_ptr(), 0xDEAD_BEEF);
    assert_eq!(it.next(), Some(Arg::U128(i128::MAX as u128)));
    assert_eq!(it.next().unwrap().as_i8(), -128);
    assert_eq!(it.next(), None);
}

#[test]
fn fill_writes_little_endian_bytes() {
    let mut m = ArgMemory::new(&[Type::U16, Type::U32]).unwrap();
    m.fill(&[int_value(0x0102), int_value(0x0A0B0C0D)]).unwrap();
    assert_eq!(m.mem(), &[0x02, 0x01, 0, 0, 0x0D, 0x0C, 0x0B, 0x0A]);
}

#[test]
fn fill_errors() {
    let mut m = ArgMemory::new(&[Type::U8, Type::U8]).unwrap();
    assert_eq!(m.fill(&[int_value(1)]), Err(FillError::ArgCount));
    assert_eq!(m.mem(), &[0, 0]);
    assert_eq!(
        m.fill(&[int_value(7), int_value(256)]),
        Err(FillError::Arg { index: 1, fault: FillFault::Convert })
    );
    // the arguments before the one that failed are written
    assert_eq!(m.mem(), &[7, 0]);
    assert_eq!(
        m.fill(&[int_value(-1), int_value(0)]),
        Err(FillError::Arg { index: 0, fault: FillFault::Convert })
    );
    let mut c = ArgMemory::new(&[Type::Char]).unwrap();
    assert_eq!(c.fill(&[text("")]), Err(FillError::Arg { index: 0, fault: FillFault::EmptyString }));
    assert_eq!(c.fill(&[text("é")]), Err(FillError::Arg { index: 0, fault: FillFault::TooWide }));
    assert_eq!(c.fill(&[int_value(65)]), Err(FillError::Arg { index: 0, fault: FillFault::Convert }));
    let mut w = ArgMemory::new(&[Type::WChar]).unwrap();
    assert_eq!(w.fill(&[text("😀")]), Err(FillError::Arg { index: 0, fault: FillFault::TooWide }));
}

#[test]
fn fill_signed_limits() {
    let mut m = ArgMemory::new(&[Type::I8]).unwrap();
    assert!(m.fill(&[int_value(127)]).is_ok());
    assert!(m.fill(&[int_value(-128)]).is_ok());
    assert_eq!(m.mem(), &[0x80]);
    assert!(m.fill(&[int_value(128)]).is_err());
    assert!(m.fill(&[int_value(-129)]).is_err());
}

#[test]
fn iterator_skips_surrogate_wchar() {
    let layout = ArgLayout::new(&[Type::WChar]).unwrap();
    let mem = [0x00, 0xD8];
    let mut it = layout.iter(&mem);
    assert_eq!(it.next(), None);
}

#[test]
fn return_values() {
    let mut bytes = [0u8; 16];
    bytes[..4].copy_from_slice(&(-5i32).to_le_bytes());
    let r = Ret { bytes };
    assert_eq!(r.to_value(Type::I32), Some(Arg::I32(-5)));
    assert_eq!(r.to_value(Type::U8), Some(Arg::U8(0xFB)));
    assert_eq!(r.to_value(Type::Void), None);
    let s = Ret { bytes: { let mut b = [0u8; 16]; b[0] = 0x00; b[1] = 0xDC; b } };
    assert_eq!(s.to_value(Type::WChar), None);
    assert_eq!(s.to_value(Type::U16), Some(Arg::U16(0xDC00)));
    let c = Ret { bytes: { let mut b = [0u8; 16]; b[0] = b'z'; b } };
    assert_eq!(c.to_value(Type::Char), Some(Arg::Char('z')));
    assert_eq!(c.to_value(Type::Bool), Some(Arg::Bool(true)));
}

#[test]
fn version_numbers() {
    assert_eq!(str_to_u16("0"), Some(0));
    assert_eq!(str_to_u16("65535"), Some(65535));
    assert_eq!(str_to_u16("65536"), None);
    assert_eq!(str_to_u16(""), None);
    assert_eq!(str_to_u16("1a"), None);
    let v = Version::new("1", "22", "333", "1.22.333").unwrap();
    assert_eq!((v.major(), v.minor(), v.patch()), (1, 22, 333));
    assert_eq!(v.repr(), "1.22.333");
    assert_eq!(v.str(), "1.22.333");
    assert!(matches!(Version::new("x", "0", "0", "x.0.0"), Err(VersionError::BadNumber)));
}

#[test]
fn configuration_defaults() {
    let c = Config::initial();
    assert!(!c.dev.console && !c.dev.dev_mode && !c.log.targets);
    assert_eq!(c.log.level, "info");
    let d = Config::default();
    assert_eq!(d.log.level, "");
    let dev = Dev::default();
    assert!(!dev.console);
    let log = Log::default();
    assert!(!log.targets);
}

#[test]
fn line_buffer_emits_first_line() {
    let mut b = LineBuffer::new();
    assert_eq!(b.write("hel"), None);
    assert_eq!(b.write("lo\r\nwor"), Some("hello".to_owned()));
    // only the first complete line leaves on each write
    assert_eq!(b.write("ld\nagain\n"), Some("world".to_owned()));
    assert_eq!(b.flush(), Some("again".to_owned()));
    assert_eq!(b.flush(), None);
    assert_eq!(b.write("\n"), Some(String::new()));
    b.write("\r\n\r\n");
    assert_eq!(b.flush(), None);
}

#[test]
fn scripts_are_found() {
    let p = plan_script(1, true, false, "hello.PY", "native-scripts", "C:\\s", "C:\\s\\_packages").unwrap();
    assert_eq!(p.name, "hello");
    assert_eq!(p.module_paths, vec!["C:\\s\\_packages".to_owned()]);
    let m = plan_script(2, true, false, "Main.py", "mod", "C:\\s\\mod", "C:\\pk").unwrap();
    assert_eq!(m.name, "mod");
    assert_eq!(m.module_paths, vec!["C:\\s\\mod".to_owned(), "C:\\pk".to_owned()]);
    assert!(plan_script(1, true, false, "notes.txt", "s", "p", "pk").is_none());
    assert!(plan_script(1, true, false, ".py", "s", "p", "pk").is_none());
    assert!(plan_script(2, true, false, "other.py", "s", "p", "pk").is_none());
    assert!(plan_script(1, false, false, "dir.py", "s", "p", "pk").is_none());
    assert!(plan_script(1, true, true, "lib.py", "s", "p", "pk").is_none());
    assert!(plan_script(3, true, false, "main.py", "s", "p", "pk").is_none());
    let dotted = plan_script(1, true, false, "a.b.py", "s", "p", "pk").unwrap();
    assert_eq!(dotted.name, "a.b");
}

#[test]
fn jit_signatures() {
    let s = jit_signature(&[Type::U8, Type::Ptr], Type::Void).unwrap();
    assert_eq!(s.params, vec![Type::U8, Type::Ptr]);
    assert_eq!(s.returns, None);
    let r = jit_signature(&[], Type::I32).unwrap();
    assert_eq!(r.returns, Some(Type::I32));
    assert_eq!(
        jit_signature(&[Type::U8, Type::Void, Type::Void], Type::Void).unwrap_err(),
        SignatureError::VoidArgument(1)
    );
}

#[test]
fn call_trampolines() {
    assert_eq!(Trampoline::new(0x1000, &[]).unwrap_err(), TrampolineError::ArgMemory);
    assert_eq!(Trampoline::new(0, &[Type::U8]).unwrap_err(), TrampolineError::NullAddress);
    let mut t = Trampoline::new(0x1000, &[Type::U8]).unwrap();
    assert_eq!(t.addr(), 0x1000);
    t.arg_mem().fill(&[int_value(9)]).unwrap();
    assert_eq!(t.arg_mem().mem(), &[9]);
}

#[test]
fn log_writer_target() {
    let w = StripAnsiWriter::new("C:\\logs", "native-memory-scripter.log");
    assert_eq!(w.dir, "C:\\logs");
    assert_eq!(w.filename, "native-memory-scripter.log");
}

#[test]
fn argument_accessors() {
    assert_eq!(Arg::U8(1).as_u8(), 1);
    assert_eq!(Arg::U16(2).as_u16(), 2);
    assert_eq!(Arg::U32(3).as_u32(), 3);
    assert_eq!(Arg::U64(4).as_u64(), 4);
    assert_eq!(Arg::I16(-5).as_i16(), -5);
    assert_eq!(Arg::I32(-6).as_i32(), -6);
    assert_eq!(Arg::CStr(0x10).as_cstr(), 0x10);
    assert_eq!(Arg::WStr(0x20).as_wstr(), 0x20);
    assert_eq!(Arg::F32(1.0f32.to_bits()).as_f32_bits(), 0x3F80_0000);
}

#[test]
fn arch_names_are_variant_names() {
    assert_eq!(Arch::X64.name(), "X64");
    assert_eq!(Arch::X86_16.name(), "X86_16");
    assert_eq!(Arch::PPC64LE.to_string(), "PPC64LE");
    assert_eq!(Arch::THUMBV8EB.to_string(), "THUMBV8EB");
}
