//! Disassembly of x86-64 machine code, and instruction-aligned lengths.

use capstone::arch::x86::{ArchMode, ArchSyntax};
use capstone::arch::{BuildsCapstone, BuildsCapstoneSyntax};
use capstone::Capstone;
use vstd::prelude::*;
use vstd::string::*;

use crate::render::{hex_chars, hex_list, push_hex, push_hex_list, push_str, string_from_chars};

verus! {

/// Declares the disassembler's error type.
#[verifier::external_type_specification]
#[verifier::external_body]
pub struct ExCapstoneError(capstone::Error);

/// Errors of the [disasm](crate::mem::disasm) module
#[derive(Debug)]
pub enum AsmError {
    /// bad address
    BadAddress,
    /// failed to assemble asm
    BadAsm,
    /// failed to disassemble
    BadDis,
    /// there were no instructions to disassemble
    NoInstructions,
    /// the assembler failed, with its message
    Keystone(String),
    /// the disassembler failed
    Capstone(capstone::Error),
}

/// A decoded instruction
#[derive(Debug, Clone, PartialEq)]
pub struct Inst {
    /// the address the instruction was decoded at
    pub address: u64,
    /// the instruction's length in bytes
    pub size: usize,
    /// the instruction's bytes
    pub bytes: Vec<u8>,
    /// the mnemonic, e.g. `mov`
    pub mnemonic: Option<String>,
    /// the operands as text
    pub op_str: Option<String>,
}

impl Inst {
    /// The instruction as text: `<mnemonic> <operands> @ 0x<address hex> ->
    /// [<bytes in hex>]`, with `?? ??` in place of a missing mnemonic or
    /// operand text.
    pub fn to_string(&self) -> (r: String)
        ensures
            r@ == (match (self.mnemonic, self.op_str) {
                (Some(m), Some(o)) => m@ + seq![' '] + o@,
                _ => "?? ??"@,
            }) + " @ 0x"@ + hex_chars(self.address as nat) + " -> "@ + seq!['['] + hex_list(self.bytes@) + seq![']'],
    {
        let mut out: Vec<char> = Vec::new();
        match (&self.mnemonic, &self.op_str) {
            (Some(m), Some(o)) => {
                push_str(&mut out, m.as_str());
                out.push(' ');
                push_str(&mut out, o.as_str());
            },
            _ => push_str(&mut out, "?? ??"),
        }
        push_str(&mut out, " @ 0x");
        push_hex(&mut out, self.address as u128);
        push_str(&mut out, " -> ");
        push_hex_list(&mut out, self.bytes.as_slice());
        string_from_chars(out.as_slice())
    }
}

/// The instructions the disassembler decodes from all of `code`, placed at
/// `addr`, in order; `None` when it reports an error.
pub uninterp spec fn disassembly(code: Seq<u8>, addr: u64) -> Option<Seq<Inst>>;

/// The instructions the disassembler decodes from the start of `code`, placed
/// at `addr`, stopping after `count` of them; `None` when it reports an error.
pub uninterp spec fn disassembly_count(code: Seq<u8>, addr: u64, count: usize) -> Option<Seq<Inst>>;

/// `Capstone::disasm_all` in x86-64 mode with Intel syntax: decodes all of
/// `code`. The result is named by [`disassembly`]; each decoded instruction's
/// size is the length of its bytes.
#[verifier::external_body]
fn cs_disasm_all(code: &[u8], addr: u64) -> (r: Result<Vec<Inst>, capstone::Error>)
    ensures
        r is Ok <==> disassembly(code@, addr) is Some,
        r matches Ok(v) ==> disassembly(code@, addr) == Some(v@),
        r matches Ok(v) ==> forall|i: int| 0 <= i < v@.len() ==> v@[i].size == (#[trigger] v@[i]).bytes@.len(),
{
    let cs = Capstone::new().x86().mode(ArchMode::Mode64).syntax(ArchSyntax::Intel).build()?;
    let insts = cs.disasm_all(code, addr)?;
    Ok(insts.iter().map(|i| Inst { address: i.address(), size: i.len(), bytes: i.bytes().to_vec(), mnemonic: i.mnemonic().map(|s| s.to_owned()), op_str: i.op_str().map(|s| s.to_owned()) }).collect())
}

/// `Capstone::disasm_count` in x86-64 mode with Intel syntax: decodes at most
/// `count` instructions from the start of `code` (a zero count is an error).
/// The result is named by [`disassembly_count`]; each decoded instruction's
/// size is the length of its bytes.
#[verifier::external_body]
fn cs_disasm_count(code: &[u8], addr: u64, count: usize) -> (r: Result<Vec<Inst>, capstone::Error>)
    ensures
        r is Ok <==> disassembly_count(code@, addr, count) is Some,
        r matches Ok(v) ==> disassembly_count(code@, addr, count) == Some(v@),
        r matches Ok(v) ==> forall|i: int| 0 <= i < v@.len() ==> v@[i].size == (#[trigger] v@[i]).bytes@.len(),
        count == 0 ==> r is Err,
{
    let cs = Capstone::new().x86().mode(ArchMode::Mode64).syntax(ArchSyntax::Intel).build()?;
    let insts = cs.disasm_count(code, addr, count)?;
    Ok(insts.iter().map(|i| Inst { address: i.address(), size: i.len(), bytes: i.bytes().to_vec(), mnemonic: i.mnemonic().map(|s| s.to_owned()), op_str: i.op_str().map(|s| s.to_owned()) }).collect())
}

/// Disassemble all of `code`, as if it were placed at `runtime_addr`.
pub fn disassemble_bytes_ex(code: &[u8], runtime_addr: usize) -> (r: Result<Vec<Inst>, AsmError>)
    ensures
        r is Ok <==> disassembly(code@, runtime_addr as u64) is Some,
        r matches Ok(v) ==> disassembly(code@, runtime_addr as u64) == Some(v@),
        r matches Err(e) ==> e is Capstone,
{
    match cs_disasm_all(code, runtime_addr as u64) {
        Ok(v) => Ok(v),
        Err(e) => Err(AsmError::Capstone(e)),
    }
}

/// Disassemble at most `instruction_count` instructions from the start of
/// `code`, as if it were placed at `runtime_addr`.
pub fn disassemble_bytes_ex_count(code: &[u8], runtime_addr: usize, instruction_count: usize) -> (r: Result<Vec<Inst>, AsmError>)
    ensures
        r is Ok <==> disassembly_count(code@, runtime_addr as u64, instruction_count) is Some,
        r matches Ok(v) ==> disassembly_count(code@, runtime_addr as u64, instruction_count) == Some(v@),
        r matches Err(e) ==> e is Capstone,
{
    match cs_disasm_count(code, runtime_addr as u64, instruction_count) {
        Ok(v) => Ok(v),
        Err(e) => Err(AsmError::Capstone(e)),
    }
}

/// Disassemble all of `code`, placed at address 0.
pub fn disassemble_bytes(code: &[u8]) -> (r: Result<Vec<Inst>, AsmError>)
    ensures
        r is Ok <==> disassembly(code@, 0) is Some,
        r matches Ok(v) ==> disassembly(code@, 0) == Some(v@),
        r matches Err(e) ==> e is Capstone,
{
    disassemble_bytes_ex(code, 0)
}

/// Disassemble at most `instruction_count` instructions of `code`, placed at address 0.
pub fn disassemble_bytes_count(code: &[u8], instruction_count: usize) -> (r: Result<Vec<Inst>, AsmError>)
    ensures
        r is Ok <==> disassembly_count(code@, 0, instruction_count) is Some,
        r matches Ok(v) ==> disassembly_count(code@, 0, instruction_count) == Some(v@),
        r matches Err(e) ==> e is Capstone,
{
    disassemble_bytes_ex_count(code, 0, instruction_count)
}

/// The first instruction decoded from `code`, placed at address 0.
pub open spec fn first_inst(code: Seq<u8>) -> Option<Inst> {
    match disassembly_count(code, 0, 1) {
        Some(s) if s.len() > 0 => Some(s[0]),
        _ => None,
    }
}

/// Disassemble the single instruction at the start of `code`, the bytes at
/// the address being decoded (at least the longest instruction, 16 bytes, are
/// needed to decode every instruction).
pub fn disassemble(code: &[u8]) -> (r: Result<Inst, AsmError>)
    ensures
        r is Ok <==> first_inst(code@) is Some,
        r matches Ok(i) ==> first_inst(code@) == Some(i) && i.size == i.bytes@.len(),
        disassembly_count(code@, 0, 1) is None ==> (r matches Err(e) && e is Capstone),
        disassembly_count(code@, 0, 1) matches Some(s) && s.len() == 0 ==> (r matches Err(e) && e is NoInstructions),
{
    match cs_disasm_count(code, 0, 1) {
        Ok(v) => {
            let mut v = v;
            if v.len() == 0 {
                Err(AsmError::NoInstructions)
            } else {
                let first = v.remove(0);
                Ok(first)
            }
        },
        Err(e) => Err(AsmError::Capstone(e)),
    }
}

/// Disassemble the `code` read from address `addr`, as if it were placed
/// at `runtime_addr`; a null address is refused.
pub fn disassemble_ex(addr: usize, code: &[u8], runtime_addr: usize) -> (r: Result<Vec<Inst>, AsmError>)
    ensures
        addr == 0 ==> r matches Err(AsmError::BadAddress),
        addr != 0 ==> (r is Ok <==> disassembly(code@, runtime_addr as u64) is Some),
        addr != 0 ==> (r matches Ok(v) ==> disassembly(code@, runtime_addr as u64) == Some(v@)),
        addr != 0 ==> (r matches Err(e) ==> e is Capstone),
{
    if addr == 0 {
        return Err(AsmError::BadAddress);
    }
    disassemble_bytes_ex(code, runtime_addr)
}

/// Disassemble at most `instruction_count` instructions of the `code` read
/// from address `addr`, as if it were placed at `runtime_addr`; a null
/// address is refused.
pub fn disassemble_ex_count(addr: usize, code: &[u8], runtime_addr: usize, instruction_count: usize) -> (r: Result<Vec<Inst>, AsmError>)
    ensures
        addr == 0 ==> r matches Err(AsmError::BadAddress),
        addr != 0 ==> (r is Ok <==> disassembly_count(code@, runtime_addr as u64, instruction_count) is Some),
        addr != 0 ==> (r matches Ok(v) ==> disassembly_count(code@, runtime_addr as u64, instruction_count) == Some(v@)),
        addr != 0 ==> (r matches Err(e) ==> e is Capstone),
{
    if addr == 0 {
        return Err(AsmError::BadAddress);
    }
    disassemble_bytes_ex_count(code, runtime_addr, instruction_count)
}

/// Assemble one instruction of x86-64 source text: `assembled` is what the
/// assembler made of `code` at address 0 (its bytes, or its error
/// message). Empty source or no bytes is an error; the bytes are
/// disassembled back into the first instruction they hold.
pub fn assemble(code: &str, assembled: Result<Vec<u8>, String>) -> (r: Result<Inst, AsmError>)
    ensures
        code@.len() == 0 ==> r matches Err(AsmError::BadAsm),
        code@.len() > 0 ==> match assembled {
            Err(msg) => r matches Err(AsmError::Keystone(m)) && m@ == msg@,
            Ok(bytes) => if bytes@.len() == 0 {
                r matches Err(AsmError::BadAsm)
            } else {
                match disassembly_count(bytes@, 0, 1) {
                    None => r matches Err(AsmError::Capstone(_)),
                    Some(s) => if s.len() == 0 {
                        r matches Err(AsmError::NoInstructions)
                    } else {
                        r == Ok::<Inst, AsmError>(s[0])
                    },
                }
            },
        },
{
    if code.unicode_len() == 0 {
        return Err(AsmError::BadAsm);
    }
    match assembled {
        Err(msg) => Err(AsmError::Keystone(msg)),
        Ok(bytes) => {
            if bytes.len() == 0 {
                return Err(AsmError::BadAsm);
            }
            match cs_disasm_count(bytes.as_slice(), 0, 1) {
                Ok(v) => {
                    let mut v = v;
                    if v.len() == 0 {
                        Err(AsmError::NoInstructions)
                    } else {
                        Ok(v.remove(0))
                    }
                },
                Err(e) => Err(AsmError::Capstone(e)),
            }
        },
    }
}

/// Assemble x86-64 source text placed at `runtime_addr`: `assembled` is
/// what the assembler made of `code` at that address (its bytes, or its
/// error message). Empty source or no bytes is an error; the bytes are
/// disassembled back into their instructions.
pub fn assemble_ex(code: &str, runtime_addr: usize, assembled: Result<Vec<u8>, String>) -> (r: Result<Vec<Inst>, AsmError>)
    ensures
        code@.len() == 0 ==> r matches Err(AsmError::BadAsm),
        code@.len() > 0 ==> match assembled {
            Err(msg) => r matches Err(AsmError::Keystone(m)) && m@ == msg@,
            Ok(bytes) => if bytes@.len() == 0 {
                r matches Err(AsmError::BadAsm)
            } else {
                match disassembly(bytes@, runtime_addr as u64) {
                    None => r matches Err(AsmError::Capstone(_)),
                    Some(s) => r matches Ok(v) && v@ == s,
                }
            },
        },
{
    if code.unicode_len() == 0 {
        return Err(AsmError::BadAsm);
    }
    match assembled {
        Err(msg) => Err(AsmError::Keystone(msg)),
        Ok(bytes) => {
            if bytes.len() == 0 {
                return Err(AsmError::BadAsm);
            }
            disassemble_bytes_ex(bytes.as_slice(), runtime_addr)
        },
    }
}

/// Concatenation of the bytes of instructions.
pub trait InstructionBytes {
    /// All instruction bytes, in order.
    fn to_bytes(&self) -> Vec<u8>;
}

/// The bytes of the instructions `insts`, one after another.
pub open spec fn insts_bytes(insts: Seq<Inst>) -> Seq<u8>
    decreases insts.len(),
{
    if insts.len() == 0 {
        Seq::empty()
    } else {
        insts_bytes(insts.drop_last()) + insts.last().bytes@
    }
}

impl InstructionBytes for Vec<Inst> {
    fn to_bytes(&self) -> (r: Vec<u8>)
        ensures
            r@ == insts_bytes(self@),
    {
        let mut buffer: Vec<u8> = Vec::new();
        let mut i: usize = 0;
        while i < self.len()
            invariant
                i <= self@.len(),
                buffer@ == insts_bytes(self@.take(i as int)),
            decreases self@.len() - i,
        {
            let bytes = &self[i].bytes;
            let mut k: usize = 0;
            let ghost start = buffer@;
            while k < bytes.len()
                invariant
                    k <= bytes@.len(),
                    buffer@ == start + bytes@.take(k as int),
                decreases bytes@.len() - k,
            {
                buffer.push(bytes[k]);
                k = k + 1;
                assert(buffer@ =~= start + bytes@.take(k as int));
            }
            proof {
                assert(bytes@.take(k as int) =~= bytes@);
                assert(self@.take(i + 1).drop_last() =~= self@.take(i as int));
            }
            i = i + 1;
        }
        proof {
            assert(self@.take(i as int) =~= self@);
        }
        buffer
    }
}

/// `x`, but no more than the largest `usize`.
pub open spec fn saturate(x: int) -> nat {
    if x > usize::MAX {
        usize::MAX as nat
    } else if x < 0 {
        0
    } else {
        x as nat
    }
}

/// The length covered by whole instructions of `insts`, starting from `acc`
/// bytes already covered, stopping at the first one that reaches `min_len`.
pub open spec fn covered_len(insts: Seq<Inst>, acc: nat, min_len: nat) -> nat
    decreases insts.len(),
{
    if insts.len() == 0 {
        acc
    } else {
        let a = saturate(acc + insts[0].size);
        if a >= min_len {
            a
        } else {
            covered_len(insts.drop_first(), a, min_len)
        }
    }
}

/// The length of the shortest run of whole instructions at the start of
/// `bytes` that covers at least `min_len` bytes (or of all of them, if they
/// fall short).
pub fn code_bytes_len(bytes: &[u8], min_len: usize) -> (r: Result<usize, AsmError>)
    ensures
        r is Ok <==> disassembly(bytes@, 0) is Some,
        r matches Ok(n) ==> n == covered_len(disassembly(bytes@, 0)->0, 0, min_len as nat),
        r matches Err(e) ==> e is Capstone,
{
    let insts = disassemble_bytes(bytes)?;
    let ghost all = insts@;
    let mut len: usize = 0;
    let mut i: usize = 0;
    assert(all.skip(0) =~= all);
    while i < insts.len()
        invariant
            all == insts@,
            disassembly(bytes@, 0) == Some(all),
            i <= insts@.len(),
            covered_len(all, 0, min_len as nat) == covered_len(all.skip(i as int), len as nat, min_len as nat),
        decreases insts@.len() - i,
    {
        proof {
            assert(all.skip(i as int).drop_first() =~= all.skip(i + 1));
            assert(all.skip(i as int)[0] == all[i as int]);
        }
        len = len.saturating_add(insts[i].size);
        i = i + 1;
        if len >= min_len {
            return Ok(len);
        }
    }
    proof {
        assert(all.skip(i as int) =~= Seq::<Inst>::empty());
    }
    Ok(len)
}

/// The 16 bytes of `code` starting at `off` (fewer at its end).
pub open spec fn window(code: Seq<u8>, off: nat) -> Seq<u8> {
    if off + 16 <= code.len() {
        code.subrange(off as int, off + 16int)
    } else {
        code.subrange(off as int, code.len() as int)
    }
}

/// Walking instruction by instruction from offset `len` until `min_len` bytes
/// are covered; 0 when an instruction cannot be decoded (or decodes to no
/// length, or to more bytes than remain).
pub open spec fn walk_len(code: Seq<u8>, len: nat, min_len: nat) -> nat
    decreases code.len() - len,
{
    if len >= min_len || len >= code.len() {
        if len >= min_len { len } else { 0 }
    } else {
        match first_inst(window(code, len)) {
            Some(i) if 0 < i.size <= code.len() - len => walk_len(code, (len + i.size) as nat, min_len),
            _ => 0,
        }
    }
}

/// Copies `n` bytes of `code` starting at `off`.
fn copy_range(code: &[u8], off: usize, n: usize) -> (r: Vec<u8>)
    requires
        off + n <= code@.len(),
    ensures
        r@ == code@.subrange(off as int, off + n),
{
    let total = code.len();
    let mut v: Vec<u8> = Vec::new();
    let mut k: usize = 0;
    while k < n
        invariant
            off + n <= code@.len(),
            total == code@.len(),
            k <= n,
            v@ == code@.subrange(off as int, off + k),
        decreases n - k,
    {
        v.push(code[off + k]);
        k = k + 1;
        assert(v@ =~= code@.subrange(off as int, off + k));
    }
    v
}

/// The length of the shortest run of whole instructions at `addr` that covers
/// at least `min_len` bytes; `code` holds the bytes found at `addr`, at least
/// `min_len + 15` of them so that every instruction can be decoded. Returns 0
/// when an instruction cannot be decoded.
pub fn code_len(addr: usize, code: &[u8], min_len: usize) -> (r: Result<usize, AsmError>)
    requires
        min_len + 15 <= code@.len(),
    ensures
        addr == 0 ==> (r matches Err(e) && e is BadAddress),
        addr != 0 ==> r == Ok::<usize, AsmError>(walk_len(code@, 0, min_len as nat) as usize),
{
    if addr == 0 {
        return Err(AsmError::BadAddress);
    }
    let total = code.len();
    let mut len: usize = 0;
    while len < min_len
        invariant
            addr != 0,
            total == code@.len(),
            min_len + 15 <= code@.len(),
            len <= total,
            walk_len(code@, 0, min_len as nat) == walk_len(code@, len as nat, min_len as nat),
        decreases total - len,
    {
        let end = if len + 16 <= total { len + 16 } else { total };
        let win = copy_range(code, len, end - len);
        assert(win@ == window(code@, len as nat));
        match disassemble(win.as_slice()) {
            Ok(inst) => {
                if inst.size == 0 || inst.size > total - len {
                    // an instruction longer than the bytes it was decoded
                    // from, or of no length, ends the walk like a failure
                    return Ok(0);
                }
                len = len + inst.size;
            },
            Err(_) => {
                return Ok(0);
            },
        }
    }
    Ok(len)
}

} // verus!
