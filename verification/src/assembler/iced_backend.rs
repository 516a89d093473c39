//! x86_64 decoding and formatting through `iced-x86`, and the disassembler
//! built on them.
use vstd::prelude::*;
use iced_x86::{Decoder, DecoderOptions, FlowControl, Formatter, GasFormatter, IntelFormatter, MasmFormatter, NasmFormatter, OpKind, Register};
use crate::text::{string_of, chars_of_string};
use crate::types::Syntax;

verus! {

/// The operand kinds the emulator distinguishes.
#[derive(Debug, Clone, Copy, PartialEq, Eq, Structural)]
pub enum OperandKind {
    Register,
    NearBranch64,
    Immediate8,
    Immediate8Second,
    Immediate16,
    Immediate32,
    Immediate64,
    Immediate8to16,
    Immediate8to32,
    Immediate8to64,
    Immediate32to64,
    Memory,
    Other,
}

/// How an instruction passes control on.
#[derive(Debug, Clone, Copy, PartialEq, Eq, Structural)]
pub enum FlowKind {
    Next,
    UnconditionalBranch,
    IndirectBranch,
    ConditionalBranch,
    Return,
    Call,
    IndirectCall,
    Interrupt,
    XbeginXabortXend,
    Exception,
}

/// What `iced-x86` decodes from the front of `code` at `ip` (64-bit mode).
pub uninterp spec fn iced_len(code: Seq<u8>, ip: u64) -> nat;
/// The `{:?}` name of the decoded instruction's mnemonic (`Mov`, `Adc`, ...).
pub uninterp spec fn iced_mnemonic(code: Seq<u8>, ip: u64) -> Seq<char>;
pub uninterp spec fn iced_op_count(code: Seq<u8>, ip: u64) -> u32;
pub uninterp spec fn iced_op_kind(code: Seq<u8>, ip: u64, i: u32) -> OperandKind;
/// The `{:?}` name of an operand's register (`RAX`, `None`, ...).
pub uninterp spec fn iced_op_register(code: Seq<u8>, ip: u64, i: u32) -> Seq<char>;
pub uninterp spec fn iced_imm8(code: Seq<u8>, ip: u64) -> u8;
pub uninterp spec fn iced_imm16(code: Seq<u8>, ip: u64) -> u16;
pub uninterp spec fn iced_imm32(code: Seq<u8>, ip: u64) -> u32;
pub uninterp spec fn iced_imm64(code: Seq<u8>, ip: u64) -> u64;
/// The `{:?}` name of the memory base register, `None` when there is none.
pub uninterp spec fn iced_mem_base(code: Seq<u8>, ip: u64) -> Option<Seq<char>>;
/// The `{:?}` name of the memory index register, `None` when there is none.
pub uninterp spec fn iced_mem_index(code: Seq<u8>, ip: u64) -> Option<Seq<char>>;
pub uninterp spec fn iced_mem_scale(code: Seq<u8>, ip: u64) -> u32;
pub uninterp spec fn iced_mem_disp(code: Seq<u8>, ip: u64) -> u64;
pub uninterp spec fn iced_near_branch(code: Seq<u8>, ip: u64) -> u64;
pub uninterp spec fn iced_flow(code: Seq<u8>, ip: u64) -> FlowKind;
/// The text of the decoded instruction under each formatter.
pub uninterp spec fn iced_intel_text(code: Seq<u8>, ip: u64) -> Seq<char>;
pub uninterp spec fn iced_gas_text(code: Seq<u8>, ip: u64) -> Seq<char>;
pub uninterp spec fn iced_nasm_text(code: Seq<u8>, ip: u64) -> Seq<char>;
pub uninterp spec fn iced_masm_text(code: Seq<u8>, ip: u64) -> Seq<char>;

/// `Decoder::decode` on `code[from..]` at `ip`, then `Instruction::len`. The
/// contract claims what the decoder's source shows when at least one byte is
/// there: the instruction takes at least one byte, at most 15, and no more
/// than there are.
#[verifier::external_body]
fn decode_len(code: &[u8], from: usize, ip: u64) -> (n: usize)
    requires
        from < code@.len(),
    ensures
        n == iced_len(code@.skip(from as int), ip),
        1 <= n <= 15,
        n <= code@.len() - from,
{
    Decoder::with_ip(64, &code[from..], ip, DecoderOptions::NONE).decode().len()
}

/// `Instruction::mnemonic` of the instruction at `code[from..]`, as its
/// `{:?}` text.
#[verifier::external_body]
fn decode_mnemonic(code: &[u8], from: usize, ip: u64) -> (m: String)
    requires
        from < code@.len(),
    ensures
        m@ == iced_mnemonic(code@.skip(from as int), ip),
{
    format!("{:?}", Decoder::with_ip(64, &code[from..], ip, DecoderOptions::NONE).decode().mnemonic())
}

/// `Instruction::op_count` of the instruction at `code[from..]`.
#[verifier::external_body]
fn decode_op_count(code: &[u8], from: usize, ip: u64) -> (n: u32)
    requires
        from < code@.len(),
    ensures
        n == iced_op_count(code@.skip(from as int), ip),
{
    Decoder::with_ip(64, &code[from..], ip, DecoderOptions::NONE).decode().op_count()
}

/// `Instruction::op_kind(i)` of the instruction at `code[from..]`, each kind
/// the emulator reads mapped to its own variant and the rest to `Other`.
#[verifier::external_body]
fn decode_op_kind(code: &[u8], from: usize, ip: u64, i: u32) -> (k: OperandKind)
    requires
        from < code@.len(),
        i < 5,
    ensures
        k == iced_op_kind(code@.skip(from as int), ip, i),
{
    match Decoder::with_ip(64, &code[from..], ip, DecoderOptions::NONE).decode().op_kind(i) {
        OpKind::Register => OperandKind::Register,
        OpKind::NearBranch64 => OperandKind::NearBranch64,
        OpKind::Immediate8 => OperandKind::Immediate8,
        OpKind::Immediate8_2nd => OperandKind::Immediate8Second,
        OpKind::Immediate16 => OperandKind::Immediate16,
        OpKind::Immediate32 => OperandKind::Immediate32,
        OpKind::Immediate64 => OperandKind::Immediate64,
        OpKind::Immediate8to16 => OperandKind::Immediate8to16,
        OpKind::Immediate8to32 => OperandKind::Immediate8to32,
        OpKind::Immediate8to64 => OperandKind::Immediate8to64,
        OpKind::Immediate32to64 => OperandKind::Immediate32to64,
        OpKind::Memory => OperandKind::Memory,
        _ => OperandKind::Other,
    }
}

/// `Instruction::op_register(i)` of the instruction at `code[from..]`, as
/// its `{:?}` text.
#[verifier::external_body]
fn decode_op_register(code: &[u8], from: usize, ip: u64, i: u32) -> (r: String)
    requires
        from < code@.len(),
        i < 5,
    ensures
        r@ == iced_op_register(code@.skip(from as int), ip, i),
{
    format!("{:?}", Decoder::with_ip(64, &code[from..], ip, DecoderOptions::NONE).decode().op_register(i))
}

/// `Instruction::immediate8` of the instruction at `code[from..]`.
#[verifier::external_body]
fn decode_imm8(code: &[u8], from: usize, ip: u64) -> (v: u8)
    requires
        from < code@.len(),
    ensures
        v == iced_imm8(code@.skip(from as int), ip),
{
    Decoder::with_ip(64, &code[from..], ip, DecoderOptions::NONE).decode().immediate8()
}

/// `Instruction::immediate16` of the instruction at `code[from..]`.
#[verifier::external_body]
fn decode_imm16(code: &[u8], from: usize, ip: u64) -> (v: u16)
    requires
        from < code@.len(),
    ensures
        v == iced_imm16(code@.skip(from as int), ip),
{
    Decoder::with_ip(64, &code[from..], ip, DecoderOptions::NONE).decode().immediate16()
}

/// `Instruction::immediate32` of the instruction at `code[from..]`.
#[verifier::external_body]
fn decode_imm32(code: &[u8], from: usize, ip: u64) -> (v: u32)
    requires
        from < code@.len(),
    ensures
        v == iced_imm32(code@.skip(from as int), ip),
{
    Decoder::with_ip(64, &code[from..], ip, DecoderOptions::NONE).decode().immediate32()
}

/// `Instruction::immediate64` of the instruction at `code[from..]`.
#[verifier::external_body]
fn decode_imm64(code: &[u8], from: usize, ip: u64) -> (v: u64)
    requires
        from < code@.len(),
    ensures
        v == iced_imm64(code@.skip(from as int), ip),
{
    Decoder::with_ip(64, &code[from..], ip, DecoderOptions::NONE).decode().immediate64()
}

/// `Instruction::memory_base` of the instruction at `code[from..]`: its
/// `{:?}` text, `None` for `Register::None`.
#[verifier::external_body]
fn decode_mem_base(code: &[u8], from: usize, ip: u64) -> (r: Option<String>)
    requires
        from < code@.len(),
    ensures
        r.deep_view() == iced_mem_base(code@.skip(from as int), ip),
{
    match Decoder::with_ip(64, &code[from..], ip, DecoderOptions::NONE).decode().memory_base() {
        Register::None => None,
        r => Some(format!("{:?}", r)),
    }
}

/// `Instruction::memory_index` of the instruction at `code[from..]`: its
/// `{:?}` text, `None` for `Register::None`.
#[verifier::external_body]
fn decode_mem_index(code: &[u8], from: usize, ip: u64) -> (r: Option<String>)
    requires
        from < code@.len(),
    ensures
        r.deep_view() == iced_mem_index(code@.skip(from as int), ip),
{
    match Decoder::with_ip(64, &code[from..], ip, DecoderOptions::NONE).decode().memory_index() {
        Register::None => None,
        r => Some(format!("{:?}", r)),
    }
}

/// `Instruction::memory_index_scale` of the instruction at `code[from..]`.
#[verifier::external_body]
fn decode_mem_scale(code: &[u8], from: usize, ip: u64) -> (v: u32)
    requires
        from < code@.len(),
    ensures
        v == iced_mem_scale(code@.skip(from as int), ip),
{
    Decoder::with_ip(64, &code[from..], ip, DecoderOptions::NONE).decode().memory_index_scale()
}

/// `Instruction::memory_displacement64` of the instruction at `code[from..]`.
#[verifier::external_body]
fn decode_mem_disp(code: &[u8], from: usize, ip: u64) -> (v: u64)
    requires
        from < code@.len(),
    ensures
        v == iced_mem_disp(code@.skip(from as int), ip),
{
    Decoder::with_ip(64, &code[from..], ip, DecoderOptions::NONE).decode().memory_displacement64()
}

/// `Instruction::near_branch64` of the instruction at `code[from..]`.
#[verifier::external_body]
fn decode_near_branch(code: &[u8], from: usize, ip: u64) -> (v: u64)
    requires
        from < code@.len(),
    ensures
        v == iced_near_branch(code@.skip(from as int), ip),
{
    Decoder::with_ip(64, &code[from..], ip, DecoderOptions::NONE).decode().near_branch64()
}

/// `Instruction::flow_control` of the instruction at `code[from..]`, one
/// variant for each of iced's.
#[verifier::external_body]
fn decode_flow(code: &[u8], from: usize, ip: u64) -> (f: FlowKind)
    requires
        from < code@.len(),
    ensures
        f == iced_flow(code@.skip(from as int), ip),
{
    match Decoder::with_ip(64, &code[from..], ip, DecoderOptions::NONE).decode().flow_control() {
        FlowControl::Next => FlowKind::Next,
        FlowControl::UnconditionalBranch => FlowKind::UnconditionalBranch,
        FlowControl::IndirectBranch => FlowKind::IndirectBranch,
        FlowControl::ConditionalBranch => FlowKind::ConditionalBranch,
        FlowControl::Return => FlowKind::Return,
        FlowControl::Call => FlowKind::Call,
        FlowControl::IndirectCall => FlowKind::IndirectCall,
        FlowControl::Interrupt => FlowKind::Interrupt,
        FlowControl::XbeginXabortXend => FlowKind::XbeginXabortXend,
        FlowControl::Exception => FlowKind::Exception,
    }
}

/// `IntelFormatter::format` of the instruction at `code[from..]`.
#[verifier::external_body]
fn format_intel(code: &[u8], from: usize, ip: u64) -> (t: String)
    requires
        from < code@.len(),
    ensures
        t@ == iced_intel_text(code@.skip(from as int), ip),
{
    let mut out = String::new();
    IntelFormatter::new().format(&Decoder::with_ip(64, &code[from..], ip, DecoderOptions::NONE).decode(), &mut out);
    out
}

/// `GasFormatter::format` (AT&T syntax) of the instruction at `code[from..]`.
#[verifier::external_body]
fn format_gas(code: &[u8], from: usize, ip: u64) -> (t: String)
    requires
        from < code@.len(),
    ensures
        t@ == iced_gas_text(code@.skip(from as int), ip),
{
    let mut out = String::new();
    GasFormatter::new().format(&Decoder::with_ip(64, &code[from..], ip, DecoderOptions::NONE).decode(), &mut out);
    out
}

/// `NasmFormatter::format` of the instruction at `code[from..]`.
#[verifier::external_body]
fn format_nasm(code: &[u8], from: usize, ip: u64) -> (t: String)
    requires
        from < code@.len(),
    ensures
        t@ == iced_nasm_text(code@.skip(from as int), ip),
{
    let mut out = String::new();
    NasmFormatter::new().format(&Decoder::with_ip(64, &code[from..], ip, DecoderOptions::NONE).decode(), &mut out);
    out
}

/// `MasmFormatter::format` of the instruction at `code[from..]`.
#[verifier::external_body]
fn format_masm(code: &[u8], from: usize, ip: u64) -> (t: String)
    requires
        from < code@.len(),
    ensures
        t@ == iced_masm_text(code@.skip(from as int), ip),
{
    let mut out = String::new();
    MasmFormatter::new().format(&Decoder::with_ip(64, &code[from..], ip, DecoderOptions::NONE).decode(), &mut out);
    out
}

/// What the library reads of one decoded instruction.
pub struct Decoded {
    pub ip: u64,
    pub len: nat,
    pub mnemonic: Seq<char>,
    pub op_count: u32,
    pub kinds: Seq<OperandKind>,
    pub regs: Seq<Seq<char>>,
    pub imm8: u8,
    pub imm16: u16,
    pub imm32: u32,
    pub imm64: u64,
    pub mem_base: Option<Seq<char>>,
    pub mem_index: Option<Seq<char>>,
    pub mem_scale: u32,
    pub mem_disp: u64,
    pub near_branch: u64,
    pub flow: FlowKind,
}

/// The instruction decoded from the front of `code` at `ip`.
pub open spec fn decoded_at(code: Seq<u8>, ip: u64) -> Decoded {
    Decoded {
        ip,
        len: iced_len(code, ip),
        mnemonic: iced_mnemonic(code, ip),
        op_count: iced_op_count(code, ip),
        kinds: seq![
            iced_op_kind(code, ip, 0), iced_op_kind(code, ip, 1), iced_op_kind(code, ip, 2),
            iced_op_kind(code, ip, 3), iced_op_kind(code, ip, 4),
        ],
        regs: seq![
            iced_op_register(code, ip, 0), iced_op_register(code, ip, 1), iced_op_register(code, ip, 2),
            iced_op_register(code, ip, 3), iced_op_register(code, ip, 4),
        ],
        imm8: iced_imm8(code, ip),
        imm16: iced_imm16(code, ip),
        imm32: iced_imm32(code, ip),
        imm64: iced_imm64(code, ip),
        mem_base: iced_mem_base(code, ip),
        mem_index: iced_mem_index(code, ip),
        mem_scale: iced_mem_scale(code, ip),
        mem_disp: iced_mem_disp(code, ip),
        near_branch: iced_near_branch(code, ip),
        flow: iced_flow(code, ip),
    }
}

/// One decoded instruction, as held in memory.
pub struct DecodedInstruction {
    pub ip: u64,
    pub len: usize,
    pub mnemonic: String,
    pub op_count: u32,
    pub kinds: Vec<OperandKind>,
    pub regs: Vec<String>,
    pub imm8: u8,
    pub imm16: u16,
    pub imm32: u32,
    pub imm64: u64,
    pub mem_base: Option<String>,
    pub mem_index: Option<String>,
    pub mem_scale: u32,
    pub mem_disp: u64,
    pub near_branch: u64,
    pub flow: FlowKind,
}

impl View for DecodedInstruction {
    type V = Decoded;

    open spec fn view(&self) -> Decoded {
        Decoded {
            ip: self.ip,
            len: self.len as nat,
            mnemonic: self.mnemonic@,
            op_count: self.op_count,
            kinds: self.kinds@,
            regs: self.regs.deep_view(),
            imm8: self.imm8,
            imm16: self.imm16,
            imm32: self.imm32,
            imm64: self.imm64,
            mem_base: self.mem_base.deep_view(),
            mem_index: self.mem_index.deep_view(),
            mem_scale: self.mem_scale,
            mem_disp: self.mem_disp,
            near_branch: self.near_branch,
            flow: self.flow,
        }
    }
}

/// Decodes the instruction at `code[from..]`, whose address is `ip`.
pub fn decode_at(code: &[u8], from: usize, ip: u64) -> (d: DecodedInstruction)
    requires
        from < code@.len(),
    ensures
        d@ == decoded_at(code@.skip(from as int), ip),
        1 <= d.len <= 15,
        d.len <= code@.len() - from,
        d.kinds@.len() == 5,
        d.regs@.len() == 5,
{
    let mut kinds: Vec<OperandKind> = Vec::new();
    let mut regs: Vec<String> = Vec::new();
    let mut i: u32 = 0;
    while i < 5
        invariant
            i <= 5,
            from < code@.len(),
            kinds@.len() == i,
            regs@.len() == i,
            forall|j: int| 0 <= j < i ==> kinds@[j] == iced_op_kind(code@.skip(from as int), ip, j as u32),
            forall|j: int| 0 <= j < i ==> regs.deep_view()[j] == iced_op_register(code@.skip(from as int), ip, j as u32),
        decreases 5 - i,
    {
        kinds.push(decode_op_kind(code, from, ip, i));
        let r = decode_op_register(code, from, ip, i);
        let ghost old_regs = regs.deep_view();
        regs.push(r);
        proof {
            assert(regs.deep_view() =~= old_regs.push(r@));
        }
        i = i + 1;
    }
    let d = DecodedInstruction {
        ip,
        len: decode_len(code, from, ip),
        mnemonic: decode_mnemonic(code, from, ip),
        op_count: decode_op_count(code, from, ip),
        kinds,
        regs,
        imm8: decode_imm8(code, from, ip),
        imm16: decode_imm16(code, from, ip),
        imm32: decode_imm32(code, from, ip),
        imm64: decode_imm64(code, from, ip),
        mem_base: decode_mem_base(code, from, ip),
        mem_index: decode_mem_index(code, from, ip),
        mem_scale: decode_mem_scale(code, from, ip),
        mem_disp: decode_mem_disp(code, from, ip),
        near_branch: decode_near_branch(code, from, ip),
        flow: decode_flow(code, from, ip),
    };
    proof {
        let c = code@.skip(from as int);
        assert(d@.kinds =~= decoded_at(c, ip).kinds);
        assert(d@.regs =~= decoded_at(c, ip).regs);
    }
    d
}

/// One instruction of a disassembly listing.
#[derive(Debug, Clone)]
pub struct DisassembledInstruction {
    pub ip: u64,
    pub bytes: Vec<u8>,
    pub text: String,
    pub mnemonic: String,
    pub op_count: usize,
    pub is_branch: bool,
    pub is_call: bool,
    pub is_ret: bool,
}

/// The mathematical content of a listing entry.
pub struct Listed {
    pub ip: u64,
    pub bytes: Seq<u8>,
    pub text: Seq<char>,
    pub mnemonic: Seq<char>,
    pub op_count: int,
    pub is_branch: bool,
    pub is_call: bool,
    pub is_ret: bool,
}

impl View for DisassembledInstruction {
    type V = Listed;

    open spec fn view(&self) -> Listed {
        Listed {
            ip: self.ip,
            bytes: self.bytes@,
            text: self.text@,
            mnemonic: self.mnemonic@,
            op_count: self.op_count as int,
            is_branch: self.is_branch,
            is_call: self.is_call,
            is_ret: self.is_ret,
        }
    }
}

pub open spec fn listing_view(v: Seq<DisassembledInstruction>) -> Seq<Listed> {
    v.map_values(|d: DisassembledInstruction| d@)
}

/// The text of the instruction at the front of `code` in a syntax.
pub open spec fn syntax_text(syntax: Syntax, code: Seq<u8>, ip: u64) -> Seq<char> {
    match syntax {
        Syntax::Intel => iced_intel_text(code, ip),
        Syntax::Att => iced_gas_text(code, ip),
        Syntax::Nasm => iced_nasm_text(code, ip),
        Syntax::Masm => iced_masm_text(code, ip),
    }
}

/// The listing entry of the instruction at `code[pos..]`.
pub open spec fn listed_at(code: Seq<u8>, pos: int, ip: u64, syntax: Syntax) -> Listed {
    let c = code.skip(pos);
    let d = decoded_at(c, ip);
    Listed {
        ip,
        bytes: code.subrange(pos, pos + step_len(code, pos, ip)),
        text: syntax_text(syntax, c, ip),
        mnemonic: crate::text::unicode_lowercase(d.mnemonic),
        op_count: d.op_count as int,
        is_branch: d.flow == FlowKind::UnconditionalBranch || d.flow == FlowKind::ConditionalBranch,
        is_call: d.flow == FlowKind::Call,
        is_ret: d.flow == FlowKind::Return,
    }
}

/// The bytes an instruction at `code[pos..]` takes (at least one).
pub open spec fn step_len(code: Seq<u8>, pos: int, ip: u64) -> int {
    let n = iced_len(code.skip(pos), ip) as int;
    if 1 <= n <= code.len() - pos { n } else { code.len() - pos }
}

/// The listing from byte `pos` on, the instruction there at `ip`.
pub open spec fn disasm_from(code: Seq<u8>, pos: int, ip: u64, syntax: Syntax) -> Seq<Listed>
    decreases code.len() - pos,
{
    if pos < 0 || pos >= code.len() {
        Seq::empty()
    } else {
        let n = step_len(code, pos, ip);
        seq![listed_at(code, pos, ip, syntax)] + disasm_from(code, pos + n, ((ip + n) % 0x1_0000_0000_0000_0000) as u64, syntax)
    }
}

/// The bytes of a listing, entry after entry.
pub open spec fn listing_bytes(l: Seq<Listed>) -> Seq<u8>
    decreases l.len(),
{
    if l.len() == 0 {
        Seq::empty()
    } else {
        l[0].bytes + listing_bytes(l.drop_first())
    }
}

proof fn lemma_listing_covers(code: Seq<u8>, pos: int, ip: u64, syntax: Syntax)
    requires
        0 <= pos <= code.len(),
    ensures
        listing_bytes(disasm_from(code, pos, ip, syntax)) == code.skip(pos),
        forall|k: int| 0 <= k < disasm_from(code, pos, ip, syntax).len() ==>
            #[trigger] disasm_from(code, pos, ip, syntax)[k].bytes.len() > 0,
        disasm_from(code, pos, ip, syntax).len() > 0 ==> disasm_from(code, pos, ip, syntax)[0].ip == ip,
        forall|k: int| 0 <= k < disasm_from(code, pos, ip, syntax).len() - 1 ==>
            (#[trigger] disasm_from(code, pos, ip, syntax)[k + 1]).ip
                == ((disasm_from(code, pos, ip, syntax)[k].ip + disasm_from(code, pos, ip, syntax)[k].bytes.len()) % 0x1_0000_0000_0000_0000) as u64,
    decreases code.len() - pos,
{
    let l = disasm_from(code, pos, ip, syntax);
    if pos == code.len() {
        assert(code.skip(pos) =~= Seq::<u8>::empty());
    } else {
        let n = step_len(code, pos, ip);
        let next = ((ip + n) % 0x1_0000_0000_0000_0000) as u64;
        lemma_listing_covers(code, pos + n, next, syntax);
        let rest = disasm_from(code, pos + n, next, syntax);
        assert(l.drop_first() =~= rest);
        assert(code.skip(pos) =~= code.subrange(pos, pos + n) + code.skip(pos + n));
        assert forall|k: int| 0 <= k < l.len() implies #[trigger] l[k].bytes.len() > 0 by {
            if k > 0 {
                assert(l[k] == rest[k - 1]);
            }
        }
        assert forall|k: int| 0 <= k < l.len() - 1 implies
            (#[trigger] l[k + 1]).ip == ((l[k].ip + l[k].bytes.len()) % 0x1_0000_0000_0000_0000) as u64 by {
            assert(l[k + 1] == rest[k]);
            if k > 0 {
                assert(l[k] == rest[k - 1]);
            }
        }
    }
}

/// Disassembly covers the code: the bytes of the listed instructions, one
/// after the other, are exactly the code, and no entry is empty; the first
/// entry is at the base address and each next one right after the bytes of
/// the one before (addresses wrap).
pub proof fn law_disassembly_covers_code(code: Seq<u8>, base_ip: u64, syntax: Syntax)
    ensures
        listing_bytes(disasm_from(code, 0, base_ip, syntax)) == code,
        forall|k: int| 0 <= k < disasm_from(code, 0, base_ip, syntax).len() ==>
            #[trigger] disasm_from(code, 0, base_ip, syntax)[k].bytes.len() > 0,
        disasm_from(code, 0, base_ip, syntax).len() > 0 ==> disasm_from(code, 0, base_ip, syntax)[0].ip == base_ip,
        forall|k: int| 0 <= k < disasm_from(code, 0, base_ip, syntax).len() - 1 ==>
            (#[trigger] disasm_from(code, 0, base_ip, syntax)[k + 1]).ip
                == ((disasm_from(code, 0, base_ip, syntax)[k].ip + disasm_from(code, 0, base_ip, syntax)[k].bytes.len()) % 0x1_0000_0000_0000_0000) as u64,
{
    lemma_listing_covers(code, 0, base_ip, syntax);
    assert(code.skip(0) =~= code);
}

fn syntax_text_exec(syntax: Syntax, code: &[u8], from: usize, ip: u64) -> (t: String)
    requires
        from < code@.len(),
    ensures
        t@ == syntax_text(syntax, code@.skip(from as int), ip),
{
    match syntax {
        Syntax::Intel => format_intel(code, from, ip),
        Syntax::Att => format_gas(code, from, ip),
        Syntax::Nasm => format_nasm(code, from, ip),
        Syntax::Masm => format_masm(code, from, ip),
    }
}

pub(crate) fn slice_bytes(code: &[u8], from: usize, to: usize) -> (v: Vec<u8>)
    requires
        from <= to <= code@.len(),
    ensures
        v@ == code@.subrange(from as int, to as int),
{
    let mut v: Vec<u8> = Vec::new();
    let mut k: usize = from;
    while k < to
        invariant
            from <= k <= to <= code@.len(),
            v@ == code@.subrange(from as int, k as int),
        decreases to - k,
    {
        v.push(code[k]);
        proof {
            assert(code@.subrange(from as int, k + 1) =~= code@.subrange(from as int, k as int).push(code@[k as int]));
        }
        k = k + 1;
    }
    v
}

fn listed_at_exec(code: &[u8], pos: usize, ip: u64, syntax: Syntax) -> (r: (DisassembledInstruction, usize))
    requires
        pos < code@.len(),
    ensures
        r.0@ == listed_at(code@, pos as int, ip, syntax),
        r.1 as int == step_len(code@, pos as int, ip),
        1 <= r.1 <= code@.len() - pos,
{
    let d = decode_at(code, pos, ip);
    let text = syntax_text_exec(syntax, code, pos, ip);
    let bytes = if d.len <= code.len() - pos { slice_bytes(code, pos, pos + d.len) } else { Vec::new() };
    let mnemonic = string_of(&crate::text::to_lowercase(&chars_of_string(&d.mnemonic)));
    let item = DisassembledInstruction {
        ip,
        bytes,
        text,
        mnemonic,
        op_count: d.op_count as usize,
        is_branch: d.flow == FlowKind::UnconditionalBranch || d.flow == FlowKind::ConditionalBranch,
        is_call: d.flow == FlowKind::Call,
        is_ret: d.flow == FlowKind::Return,
    };
    proof {
        assert(item@.bytes =~= listed_at(code@, pos as int, ip, syntax).bytes);
    }
    (item, d.len)
}

/// Disassembles 64-bit x86 code whose first byte is at `base_ip`, until the
/// bytes run out.
pub fn disassemble_x86_64(bytes: &[u8], base_ip: u64, syntax: Syntax) -> (res: Vec<DisassembledInstruction>)
    ensures
        listing_view(res@) == disasm_from(bytes@, 0, base_ip, syntax),
{
    let mut out: Vec<DisassembledInstruction> = Vec::new();
    let mut pos: usize = 0;
    let mut ip: u64 = base_ip;
    proof {
        assert(listing_view(out@) =~= Seq::<Listed>::empty());
        assert(Seq::<Listed>::empty() + disasm_from(bytes@, 0, base_ip, syntax) =~= disasm_from(bytes@, 0, base_ip, syntax));
    }
    while pos < bytes.len()
        invariant
            pos <= bytes@.len(),
            listing_view(out@) + disasm_from(bytes@, pos as int, ip, syntax) == disasm_from(bytes@, 0, base_ip, syntax),
        decreases bytes@.len() - pos,
    {
        let (item, n) = listed_at_exec(bytes, pos, ip, syntax);
        let ghost before = listing_view(out@);
        let ghost rest = disasm_from(bytes@, pos as int, ip, syntax);
        out.push(item);
        let next: u64 = ip.wrapping_add(n as u64);
        proof {
            assert(next == ((ip + n) % 0x1_0000_0000_0000_0000) as u64);
            assert(listing_view(out@) =~= before.push(item@));
            assert(rest == seq![item@] + disasm_from(bytes@, pos + n, next, syntax));
            assert(listing_view(out@) + disasm_from(bytes@, pos + n, next, syntax) =~= before + rest);
        }
        pos = pos + n;
        ip = next;
    }
    proof {
        assert(disasm_from(bytes@, pos as int, ip, syntax) =~= Seq::<Listed>::empty());
        assert(listing_view(out@) =~= listing_view(out@) + Seq::<Listed>::empty());
    }
    out
}

} // verus!
