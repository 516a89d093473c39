//! A step-by-step x86_64 emulator over a sparse byte memory, reporting for
//! each instruction the registers, flags and memory it changed.
use vstd::prelude::*;
use std::collections::HashMap;
use crate::assembler::iced_backend::{decode_at, decoded_at, Decoded, DecodedInstruction, FlowKind, OperandKind};
use crate::cpu::{reg_or_zero, set_target, steps_view, CpuFlags, CpuRegisters, FlagChange, FlagDiff, RegChange, RegisterDiff, Step, TraceStep};
use crate::text::{append, chars_of, chars_of_string, digits, eq_str, fmt_hex, string_of, to_lowercase, unicode_lowercase};

verus! {

broadcast use vstd::std_specs::hash::group_hash_axioms;

pub const TWO64: u128 = 0x1_0000_0000_0000_0000;

/// `u64::wrapping_add`.
pub open spec fn wadd(a: u64, b: u64) -> u64 {
    if a + b > u64::MAX { (a + b - 0x1_0000_0000_0000_0000) as u64 } else { (a + b) as u64 }
}

/// `u64::wrapping_sub`.
pub open spec fn wsub(a: u64, b: u64) -> u64 {
    if a - b < 0 { (a - b + 0x1_0000_0000_0000_0000) as u64 } else { (a - b) as u64 }
}

/// `u64::wrapping_mul`.
pub open spec fn wmul(a: u64, b: u64) -> u64 {
    ((a as nat * b as nat) % 0x1_0000_0000_0000_0000) as u64
}

/// The sign bit of a 64-bit value.
pub open spec fn neg64(v: u64) -> bool {
    v >= 0x8000_0000_0000_0000
}

/// Byte `i` (from the least significant) of a 64-bit value.
pub open spec fn byte_of(v: u64, i: int) -> u8 {
    ((v as int / pow256(i)) % 256) as u8
}

pub open spec fn pow256(i: int) -> int
    decreases i,
{
    if i <= 0 { 1 } else { 256 * pow256(i - 1) }
}

/// The emulated machine: registers, flags and a sparse byte memory.
pub struct Machine {
    pub regs: Map<Seq<char>, u64>,
    pub flags: CpuFlags,
    pub mem: Map<u64, u8>,
}

/// The byte at `a`, 0 where nothing was written.
pub open spec fn mem_byte(mem: Map<u64, u8>, a: u64) -> u8 {
    if mem.contains_key(a) { mem[a] } else { 0 }
}

/// The little-endian 64-bit value at `a` (addresses wrap).
pub open spec fn read_u64(mem: Map<u64, u8>, a: u64) -> u64 {
    (mem_byte(mem, a) as int
        + 256 * (mem_byte(mem, wadd(a, 1)) as int
        + 256 * (mem_byte(mem, wadd(a, 2)) as int
        + 256 * (mem_byte(mem, wadd(a, 3)) as int
        + 256 * (mem_byte(mem, wadd(a, 4)) as int
        + 256 * (mem_byte(mem, wadd(a, 5)) as int
        + 256 * (mem_byte(mem, wadd(a, 6)) as int
        + 256 * (mem_byte(mem, wadd(a, 7)) as int)))))))) as u64
}

/// `v` stored little-endian at `a` (addresses wrap).
pub open spec fn write_u64(mem: Map<u64, u8>, a: u64, v: u64) -> Map<u64, u8> {
    mem.insert(a, byte_of(v, 0))
        .insert(wadd(a, 1), byte_of(v, 1))
        .insert(wadd(a, 2), byte_of(v, 2))
        .insert(wadd(a, 3), byte_of(v, 3))
        .insert(wadd(a, 4), byte_of(v, 4))
        .insert(wadd(a, 5), byte_of(v, 5))
        .insert(wadd(a, 6), byte_of(v, 6))
        .insert(wadd(a, 7), byte_of(v, 7))
}

/// `CpuRegisters::get` of a register named by the decoder.
pub open spec fn reg_val(m: Machine, name: Seq<char>) -> u64 {
    reg_or_zero(m.regs, unicode_lowercase(name))
}

/// `CpuRegisters::set` of a register named by the decoder.
pub open spec fn reg_write(m: Machine, name: Seq<char>, v: u64) -> Machine {
    let t = set_target(unicode_lowercase(name), v);
    Machine { regs: m.regs.insert(t.0, t.1), ..m }
}

/// A named 64-bit register, read directly.
pub open spec fn gpr(m: Machine, name: Seq<char>) -> u64 {
    reg_or_zero(m.regs, name)
}

/// A named 64-bit register, written directly.
pub open spec fn gpr_write(m: Machine, name: Seq<char>, v: u64) -> Machine {
    Machine { regs: m.regs.insert(name, v), ..m }
}

/// The lower-case name of operand `i`'s register.
pub open spec fn op_reg_name(d: Decoded, i: int) -> Seq<char> {
    unicode_lowercase(d.regs[i])
}

/// The effective address of the memory operand.
pub open spec fn effective_address(m: Machine, d: Decoded) -> u64 {
    let a0 = d.mem_disp;
    let a1 = match d.mem_base {
        Some(b) => wadd(a0, reg_val(m, unicode_lowercase(b))),
        None => a0,
    };
    match d.mem_index {
        Some(x) => wadd(a1, wmul(reg_val(m, unicode_lowercase(x)), d.mem_scale as u64)),
        None => a1,
    }
}

/// The value of operand `i`.
pub open spec fn op_value(m: Machine, d: Decoded, i: int) -> u64 {
    match d.kinds[i] {
        OperandKind::Register => reg_val(m, op_reg_name(d, i)),
        OperandKind::Immediate8 => d.imm8 as u64,
        OperandKind::Immediate8Second => d.imm8 as u64,
        OperandKind::Immediate8to16 => sext8(d.imm8),
        OperandKind::Immediate8to32 => sext8(d.imm8),
        OperandKind::Immediate8to64 => sext8(d.imm8),
        OperandKind::Immediate16 => d.imm16 as u64,
        OperandKind::Immediate32 => d.imm32 as u64,
        OperandKind::Immediate32to64 => sext32(d.imm32),
        OperandKind::Immediate64 => d.imm64,
        OperandKind::Memory => read_u64(m.mem, effective_address(m, d)),
        _ => 0,
    }
}

/// An 8-bit immediate sign-extended to 64 bits.
pub open spec fn sext8(b: u8) -> u64 {
    if b >= 128 { (b + 0xFFFF_FFFF_FFFF_FF00) as u64 } else { b as u64 }
}

/// A 32-bit immediate sign-extended to 64 bits.
pub open spec fn sext32(w: u32) -> u64 {
    if w >= 0x8000_0000 { (w + 0xFFFF_FFFF_0000_0000) as u64 } else { w as u64 }
}

/// `{:x}` formatting.
pub open spec fn hex(v: u64) -> Seq<char> {
    digits(v as nat, 16)
}

pub open spec fn memory_note(prefix: Seq<char>, a: u64, v: u64) -> Seq<char> {
    prefix + " [0x"@ + hex(a) + "] = 0x"@ + hex(v)
}

pub const INVALID_DESTINATION: &'static str = "Invalid destination operand";

/// Writing operand `i`: the machine after, the memory notes added, and
/// whether the operand could be written.
pub open spec fn op_write(m: Machine, d: Decoded, i: int, v: u64, w: Seq<Seq<char>>) -> (Machine, Seq<Seq<char>>, bool) {
    match d.kinds[i] {
        OperandKind::Register => (reg_write(m, op_reg_name(d, i), v), w, true),
        OperandKind::Memory => {
            let a = effective_address(m, d);
            (Machine { mem: write_u64(m.mem, a, v), ..m }, w.push(memory_note("Memory"@, a, v)), true)
        },
        _ => (m, w, false),
    }
}

/// The tracer: a register file, a sparse memory, and a step limit.
pub struct StepTracer {
    registers: CpuRegisters,
    memory: HashMap<u64, u8>,
    max_steps: usize,
}

impl StepTracer {
    pub closed spec fn wf(&self) -> bool {
        self.registers.wf()
    }

    /// The machine the tracer holds.
    pub closed spec fn machine(&self) -> Machine {
        Machine { regs: self.registers.regs(), flags: self.registers.flags, mem: self.memory@ }
    }

    /// The most instructions one trace executes.
    pub closed spec fn step_limit(&self) -> nat {
        self.max_steps as nat
    }

    /// A fresh x86_64 machine with empty memory, limited to 1000 steps.
    pub fn new() -> (t: Self)
        ensures
            t.wf(),
            t.machine() == (Machine { regs: crate::cpu::initial_x86_regs(), flags: CpuFlags::cleared(), mem: Map::empty() }),
            t.step_limit() == 1000,
    {
        let t = StepTracer { registers: CpuRegisters::new_x86_64(), memory: HashMap::new(), max_steps: 1000 };
        proof {
            assert(t.memory@ =~= Map::<u64, u8>::empty());
        }
        t
    }

    /// Sets a register before tracing, by a name in any case.
    pub fn set_initial_register(&mut self, reg: &str, val: u64)
        requires
            old(self).wf(),
        ensures
            final(self).wf(),
            final(self).machine() == reg_write(old(self).machine(), reg@, val),
            final(self).step_limit() == old(self).step_limit(),
    {
        self.registers.set(reg, val);
    }

    fn gpr_exec(&self, name: &str) -> (v: u64)
        requires
            self.wf(),
        ensures
            v == gpr(self.machine(), name@),
    {
        self.registers.get_name(&chars_of(name))
    }

    fn gpr_write_exec(&mut self, name: &str, v: u64)
        requires
            old(self).wf(),
        ensures
            final(self).wf(),
            final(self).machine() == gpr_write(old(self).machine(), name@, v),
            final(self).step_limit() == old(self).step_limit(),
    {
        self.registers.put(chars_of(name), v);
    }

    fn reg_val_exec(&self, name: &Vec<char>) -> (v: u64)
        requires
            self.wf(),
        ensures
            v == reg_val(self.machine(), name@),
    {
        self.registers.get_name(&to_lowercase(name))
    }

    /// Stores `val` little-endian at `addr`.
    fn write_u64(&mut self, addr: u64, val: u64)
        ensures
            final(self).memory@ == write_u64(old(self).memory@, addr, val),
            final(self).registers == old(self).registers,
            final(self).max_steps == old(self).max_steps,
    {
        let mut v = val;
        let mut i: u64 = 0;
        let ghost m0 = self.memory@;
        while i < 8
            invariant
                i <= 8,
                self.registers == old(self).registers,
                self.max_steps == old(self).max_steps,
                v as int == val as int / pow256(i as int),
                m0 == old(self).memory@,
                self.memory@ == write_prefix(m0, addr, val, i as int),
            decreases 8 - i,
        {
            let b = (v % 256) as u8;
            proof {
                lemma_pow256_pos(i as int);
                assert(pow256(i + 1) == 256 * pow256(i as int));
                assert(b == byte_of(val, i as int));
                lemma_div_div(val as int, pow256(i as int), 256);
            }
            self.memory.insert(addr.wrapping_add(i), b);
            v = v / 256;
            i = i + 1;
        }
        proof {
            reveal_with_fuel(write_prefix, 9);
            assert(wadd(addr, 0) == addr);
            assert(write_prefix(m0, addr, val, 8) =~= write_u64(m0, addr, val));
        }
    }

    /// The little-endian value at `addr`; bytes never written read as 0.
    fn read_u64(&self, addr: u64) -> (v: u64)
        ensures
            v == read_u64(self.memory@, addr),
    {
        let b0 = self.mem_byte_exec(addr) as u64;
        let b1 = self.mem_byte_exec(addr.wrapping_add(1)) as u64;
        let b2 = self.mem_byte_exec(addr.wrapping_add(2)) as u64;
        let b3 = self.mem_byte_exec(addr.wrapping_add(3)) as u64;
        let b4 = self.mem_byte_exec(addr.wrapping_add(4)) as u64;
        let b5 = self.mem_byte_exec(addr.wrapping_add(5)) as u64;
        let b6 = self.mem_byte_exec(addr.wrapping_add(6)) as u64;
        let b7 = self.mem_byte_exec(addr.wrapping_add(7)) as u64;
        b0 + 256 * (b1 + 256 * (b2 + 256 * (b3 + 256 * (b4 + 256 * (b5 + 256 * (b6 + 256 * b7))))))
    }

    fn mem_byte_exec(&self, a: u64) -> (b: u8)
        ensures
            b == mem_byte(self.memory@, a),
    {
        match self.memory.get(&a) {
            Some(b) => *b,
            None => 0,
        }
    }
}

/// The memory after storing the first `k` bytes of `v` at `a`.
pub open spec fn write_prefix(mem: Map<u64, u8>, a: u64, v: u64, k: int) -> Map<u64, u8>
    decreases k,
{
    if k <= 0 {
        mem
    } else {
        write_prefix(mem, a, v, k - 1).insert(wadd(a, (k - 1) as u64), byte_of(v, k - 1))
    }
}

/// The value that bytes `i..8` of `v` make, least significant first.
pub open spec fn bytes_value(v: u64, i: int) -> int
    decreases 8 - i,
{
    if i >= 8 { 0 } else { byte_of(v, i) as int + 256 * bytes_value(v, i + 1) }
}

proof fn lemma_bytes_value(v: u64, i: int)
    requires
        0 <= i <= 8,
    ensures
        bytes_value(v, i) == v as int / pow256(i),
    decreases 8 - i,
{
    lemma_pow256_pos(i);
    if i == 8 {
        lemma_pow256_8();
        assert(v as int / 0x1_0000_0000_0000_0000int == 0);
    } else {
        lemma_bytes_value(v, i + 1);
        let q = v as int / pow256(i);
        assert(pow256(i + 1) == pow256(i) * 256);
        lemma_div_div(v as int, pow256(i), 256);
        vstd::arithmetic::div_mod::lemma_fundamental_div_mod(q, 256);
        assert(q >= 0) by {
            vstd::arithmetic::div_mod::lemma_div_pos_is_pos(v as int, pow256(i));
        }
        assert(byte_of(v, i) as int == q % 256);
        assert(bytes_value(v, i + 1) == q / 256);
        assert(bytes_value(v, i) == q % 256 + 256 * (q / 256));
    }
}

/// A 64-bit store followed by a 64-bit load at the same address gives back
/// the stored value, wherever it lands (addresses wrap).
pub proof fn law_memory_read_after_write(mem: Map<u64, u8>, a: u64, v: u64)
    ensures
        read_u64(write_u64(mem, a, v), a) == v,
{
    let w = write_u64(mem, a, v);
    assert(mem_byte(w, a) == byte_of(v, 0));
    assert(mem_byte(w, wadd(a, 1)) == byte_of(v, 1));
    assert(mem_byte(w, wadd(a, 2)) == byte_of(v, 2));
    assert(mem_byte(w, wadd(a, 3)) == byte_of(v, 3));
    assert(mem_byte(w, wadd(a, 4)) == byte_of(v, 4));
    assert(mem_byte(w, wadd(a, 5)) == byte_of(v, 5));
    assert(mem_byte(w, wadd(a, 6)) == byte_of(v, 6));
    assert(mem_byte(w, wadd(a, 7)) == byte_of(v, 7));
    lemma_bytes_value(v, 0);
    reveal_with_fuel(bytes_value, 9);
    assert(pow256(0) == 1);
}

/// A 64-bit store changes only the eight bytes it covers.
pub proof fn law_memory_write_frame(mem: Map<u64, u8>, a: u64, v: u64, b: u64)
    requires
        forall|i: u64| 0 <= i < 8 ==> b != #[trigger] wadd(a, i),
    ensures
        mem_byte(write_u64(mem, a, v), b) == mem_byte(mem, b),
{
    assert(b != wadd(a, 0));
    assert(b != wadd(a, 1));
    assert(b != wadd(a, 2));
    assert(b != wadd(a, 3));
    assert(b != wadd(a, 4));
    assert(b != wadd(a, 5));
    assert(b != wadd(a, 6));
    assert(b != wadd(a, 7));
}

proof fn lemma_pow256_pos(i: int)
    ensures
        pow256(i) > 0,
    decreases i,
{
    if i > 0 {
        lemma_pow256_pos(i - 1);
    }
}

proof fn lemma_div_div(x: int, a: int, b: int)
    requires
        x >= 0,
        a > 0,
        b > 0,
    ensures
        x / a / b == x / (a * b),
{
    vstd::arithmetic::div_mod::lemma_div_denominator(x, a, b);
}

fn wadd_exec(a: u64, b: u64) -> (r: u64)
    ensures
        r == wadd(a, b),
{
    a.wrapping_add(b)
}

fn wsub_exec(a: u64, b: u64) -> (r: u64)
    ensures
        r == wsub(a, b),
{
    a.wrapping_sub(b)
}

fn wmul_exec(a: u64, b: u64) -> (r: u64)
    ensures
        r == wmul(a, b),
{
    a.wrapping_mul(b)
}

fn fmt_note(prefix: &str, a: u64, v: u64) -> (s: String)
    ensures
        s@ == memory_note(prefix@, a, v),
{
    let mut t = chars_of(prefix);
    crate::text::append_str(&mut t, " [0x");
    append(&mut t, &fmt_hex(a));
    crate::text::append_str(&mut t, "] = 0x");
    append(&mut t, &fmt_hex(v));
    string_of(&t)
}

fn push_note(w: &mut Vec<String>, s: String)
    ensures
        final(w).deep_view() == old(w).deep_view().push(s@),
{
    let ghost w0 = w.deep_view();
    w.push(s);
    proof {
        assert(w.deep_view() =~= w0.push(s@));
    }
}

/// The well-formed shape of a decoded instruction.
pub open spec fn decoded_wf(d: &DecodedInstruction) -> bool {
    d.kinds@.len() == 5 && d.regs@.len() == 5
}

impl StepTracer {
    fn ea_exec(&self, d: &DecodedInstruction) -> (a: u64)
        requires
            self.wf(),
            decoded_wf(d),
        ensures
            a == effective_address(self.machine(), d@),
    {
        let mut addr = d.mem_disp;
        match &d.mem_base {
            Some(b) => {
                let v = self.reg_val_exec(&to_lowercase(&chars_of_string(b)));
                addr = wadd_exec(addr, v);
            },
            None => {},
        }
        match &d.mem_index {
            Some(x) => {
                let v = self.reg_val_exec(&to_lowercase(&chars_of_string(x)));
                addr = wadd_exec(addr, wmul_exec(v, d.mem_scale as u64));
            },
            None => {},
        }
        addr
    }

    fn op_value_exec(&self, d: &DecodedInstruction, i: usize) -> (v: u64)
        requires
            self.wf(),
            decoded_wf(d),
            i < 5,
        ensures
            v == op_value(self.machine(), d@, i as int),
    {
        match d.kinds[i] {
            OperandKind::Register => {
                let name = to_lowercase(&chars_of_string(&d.regs[i]));
                proof {
                    assert(d.regs.deep_view()[i as int] == d.regs@[i as int]@);
                }
                self.reg_val_exec(&name)
            },
            OperandKind::Immediate8 => d.imm8 as u64,
            OperandKind::Immediate8Second => d.imm8 as u64,
            OperandKind::Immediate8to16 => sext8_exec(d.imm8),
            OperandKind::Immediate8to32 => sext8_exec(d.imm8),
            OperandKind::Immediate8to64 => sext8_exec(d.imm8),
            OperandKind::Immediate16 => d.imm16 as u64,
            OperandKind::Immediate32 => d.imm32 as u64,
            OperandKind::Immediate32to64 => sext32_exec(d.imm32),
            OperandKind::Immediate64 => d.imm64,
            OperandKind::Memory => {
                let a = self.ea_exec(d);
                self.read_u64(a)
            },
            _ => 0,
        }
    }

    fn op_write_exec(&mut self, d: &DecodedInstruction, i: usize, v: u64, w: &mut Vec<String>) -> (ok: bool)
        requires
            old(self).wf(),
            decoded_wf(d),
            i < 5,
        ensures
            final(self).wf(),
            final(self).step_limit() == old(self).step_limit(),
            (final(self).machine(), final(w).deep_view(), ok) == op_write(old(self).machine(), d@, i as int, v, old(w).deep_view()),
    {
        match d.kinds[i] {
            OperandKind::Register => {
                let name = to_lowercase(&chars_of_string(&d.regs[i]));
                proof {
                    assert(d.regs.deep_view()[i as int] == d.regs@[i as int]@);
                }
                self.registers.set_name(to_lowercase(&name), v);
                true
            },
            OperandKind::Memory => {
                let a = self.ea_exec(d);
                self.write_u64(a, v);
                push_note(w, fmt_note("Memory", a, v));
                true
            },
            _ => false,
        }
    }
}

fn sext8_exec(b: u8) -> (v: u64)
    ensures
        v == sext8(b),
{
    if b >= 128 { b as u64 + 0xFFFF_FFFF_FFFF_FF00 } else { b as u64 }
}

fn sext32_exec(w: u32) -> (v: u64)
    ensures
        v == sext32(w),
{
    if w >= 0x8000_0000 { w as u64 + 0xFFFF_FFFF_0000_0000 } else { w as u64 }
}

// ---------------------------------------------------------------------------
// Instruction semantics.

/// What one instruction does: the machine after it, the memory notes it
/// made, and the address to continue at or the fault that stopped it.
pub struct Outcome {
    pub m: Machine,
    pub w: Seq<Seq<char>>,
    pub r: Result<u64, Seq<char>>,
}

/// The address after the instruction.
pub open spec fn next_ip(d: Decoded) -> u64 {
    wadd(d.ip, d.len as u64)
}

/// The outcome of an operand write followed by nothing else.
pub open spec fn after_write(x: (Machine, Seq<Seq<char>>, bool), d: Decoded) -> Outcome {
    if x.2 {
        Outcome { m: x.0, w: x.1, r: Ok(next_ip(d)) }
    } else {
        Outcome { m: x.0, w: x.1, r: Err(INVALID_DESTINATION@) }
    }
}

/// The outcome of an operand write followed, when it succeeds, by new flags.
pub open spec fn after_write_flags(x: (Machine, Seq<Seq<char>>, bool), d: Decoded, f: CpuFlags) -> Outcome {
    if x.2 {
        Outcome { m: Machine { flags: f, ..x.0 }, w: x.1, r: Ok(next_ip(d)) }
    } else {
        Outcome { m: x.0, w: x.1, r: Err(INVALID_DESTINATION@) }
    }
}

pub open spec fn continue_with(m: Machine, d: Decoded) -> Outcome {
    Outcome { m, w: Seq::empty(), r: Ok(next_ip(d)) }
}

pub const SIGN_BIT: u64 = 0x8000_0000_0000_0000;

/// Flags after an addition `op0 + op1 (+ carry in) = res`.
pub open spec fn add_flags(f: CpuFlags, op0: u64, op1: u64, res: u64, carry: bool) -> CpuFlags {
    CpuFlags { cf: carry, zf: res == 0, sf: neg64(res), of: ((op0 ^ res) & (op1 ^ res) & SIGN_BIT) != 0, ..f }
}

/// Flags after a subtraction `op0 - op1 (- borrow in) = res`.
pub open spec fn sub_flags(f: CpuFlags, op0: u64, op1: u64, res: u64, borrow: bool) -> CpuFlags {
    CpuFlags { cf: borrow, zf: res == 0, sf: neg64(res), of: ((op0 ^ op1) & (op0 ^ res) & SIGN_BIT) != 0, ..f }
}

/// Flags after a logic operation with result `res`: carry and overflow clear.
pub open spec fn logic_flags(f: CpuFlags, res: u64) -> CpuFlags {
    CpuFlags { cf: false, of: false, zf: res == 0, sf: neg64(res), ..f }
}

pub open spec fn sem_mov(m: Machine, d: Decoded) -> Outcome {
    after_write(op_write(m, d, 0, op_value(m, d, 1), Seq::empty()), d)
}

pub open spec fn sem_lea(m: Machine, d: Decoded) -> Outcome {
    after_write(op_write(m, d, 0, effective_address(m, d), Seq::empty()), d)
}

pub open spec fn sem_xor(m: Machine, d: Decoded) -> Outcome {
    let res = op_value(m, d, 0) ^ op_value(m, d, 1);
    let x = op_write(m, d, 0, res, Seq::empty());
    after_write_flags(x, d, logic_flags(x.0.flags, res))
}

pub open spec fn sem_adc(m: Machine, d: Decoded) -> Outcome {
    let op0 = op_value(m, d, 0);
    let op1 = op_value(m, d, 1);
    let cin: u64 = if m.flags.cf { 1 } else { 0 };
    let res1 = wadd(op0, op1);
    let res = wadd(res1, cin);
    let carry = op0 + op1 > u64::MAX || res1 + cin > u64::MAX;
    let x = op_write(m, d, 0, res, Seq::empty());
    after_write_flags(x, d, add_flags(x.0.flags, op0, op1, res, carry))
}

pub open spec fn sem_sbb(m: Machine, d: Decoded) -> Outcome {
    let op0 = op_value(m, d, 0);
    let op1 = op_value(m, d, 1);
    let bin: u64 = if m.flags.cf { 1 } else { 0 };
    let res1 = wsub(op0, op1);
    let res = wsub(res1, bin);
    let borrow = op0 < op1 || res1 < bin;
    let x = op_write(m, d, 0, res, Seq::empty());
    after_write_flags(x, d, sub_flags(x.0.flags, op0, op1, res, borrow))
}

pub open spec fn sem_add(m: Machine, d: Decoded) -> Outcome {
    let op0 = op_value(m, d, 0);
    let op1 = op_value(m, d, 1);
    let res = wadd(op0, op1);
    let x = op_write(m, d, 0, res, Seq::empty());
    after_write_flags(x, d, add_flags(x.0.flags, op0, op1, res, op0 + op1 > u64::MAX))
}

pub open spec fn sem_sub(m: Machine, d: Decoded) -> Outcome {
    let op0 = op_value(m, d, 0);
    let op1 = op_value(m, d, 1);
    let res = wsub(op0, op1);
    let x = op_write(m, d, 0, res, Seq::empty());
    after_write_flags(x, d, sub_flags(x.0.flags, op0, op1, res, op0 < op1))
}

pub open spec fn sem_cmp(m: Machine, d: Decoded) -> Outcome {
    let op0 = op_value(m, d, 0);
    let op1 = op_value(m, d, 1);
    let res = wsub(op0, op1);
    continue_with(Machine { flags: sub_flags(m.flags, op0, op1, res, op0 < op1), ..m }, d)
}

pub open spec fn sem_test(m: Machine, d: Decoded) -> Outcome {
    let res = op_value(m, d, 0) & op_value(m, d, 1);
    continue_with(Machine { flags: logic_flags(m.flags, res), ..m }, d)
}

pub open spec fn sem_xchg(m: Machine, d: Decoded) -> Outcome {
    let v0 = op_value(m, d, 0);
    let v1 = op_value(m, d, 1);
    let x = op_write(m, d, 0, v1, Seq::empty());
    if x.2 {
        after_write(op_write(x.0, d, 1, v0, x.1), d)
    } else {
        after_write(x, d)
    }
}

/// The bytes of `v` in reverse order, the first `k` of them.
pub open spec fn bswap_prefix(v: u64, k: int) -> int
    decreases k,
{
    if k <= 0 { 0 } else { bswap_prefix(v, k - 1) * 256 + byte_of(v, k - 1) as int }
}

/// `u64::swap_bytes`.
pub open spec fn bswap(v: u64) -> u64 {
    bswap_prefix(v, 8) as u64
}

pub open spec fn sem_bswap(m: Machine, d: Decoded) -> Outcome {
    after_write(op_write(m, d, 0, bswap(op_value(m, d, 0)), Seq::empty()), d)
}

pub open spec fn sem_neg(m: Machine, d: Decoded) -> Outcome {
    let op0 = op_value(m, d, 0);
    let res = wsub(0, op0);
    let x = op_write(m, d, 0, res, Seq::empty());
    after_write_flags(x, d, CpuFlags { cf: op0 != 0, zf: res == 0, sf: neg64(res), of: op0 == SIGN_BIT, ..x.0.flags })
}

pub open spec fn sem_inc(m: Machine, d: Decoded) -> Outcome {
    let op0 = op_value(m, d, 0);
    let res = wadd(op0, 1);
    let x = op_write(m, d, 0, res, Seq::empty());
    after_write_flags(x, d, CpuFlags { zf: res == 0, sf: neg64(res), of: op0 == 0x7FFF_FFFF_FFFF_FFFF, ..x.0.flags })
}

pub open spec fn sem_dec(m: Machine, d: Decoded) -> Outcome {
    let op0 = op_value(m, d, 0);
    let res = wsub(op0, 1);
    let x = op_write(m, d, 0, res, Seq::empty());
    after_write_flags(x, d, CpuFlags { zf: res == 0, sf: neg64(res), of: op0 == SIGN_BIT, ..x.0.flags })
}

/// A 64-bit value read as signed.
pub open spec fn s64(v: u64) -> int {
    if v >= SIGN_BIT { v - 0x1_0000_0000_0000_0000 } else { v as int }
}

/// The low 64 bits of a signed value's two's complement.
pub open spec fn lo64(p: int) -> u64 {
    (p % 0x1_0000_0000_0000_0000) as u64
}

/// Bits 64..127 of a signed value's 128-bit two's complement.
pub open spec fn hi64(p: int) -> u64 {
    ((p % (0x1_0000_0000_0000_0000int * 0x1_0000_0000_0000_0000int)) / 0x1_0000_0000_0000_0000) as u64
}

/// Signed multiplication of two operands into the first: the product's low
/// 64 bits, and carry and overflow when it does not fit.
pub open spec fn imul_into(m: Machine, d: Decoded, a: u64, b: u64) -> Outcome {
    let p = s64(a) * s64(b);
    let overflow = p < i64::MIN || p > i64::MAX;
    let x = op_write(m, d, 0, lo64(p), Seq::empty());
    after_write_flags(x, d, CpuFlags { of: overflow, cf: overflow, ..x.0.flags })
}

pub open spec fn sem_imul(m: Machine, d: Decoded) -> Outcome {
    if d.op_count == 2 {
        imul_into(m, d, op_value(m, d, 0), op_value(m, d, 1))
    } else if d.op_count == 3 {
        imul_into(m, d, op_value(m, d, 1), op_value(m, d, 2))
    } else {
        let p = s64(gpr(m, "rax"@)) * s64(op_value(m, d, 0));
        continue_with(gpr_write(gpr_write(m, "rax"@, lo64(p)), "rdx"@, hi64(p)), d)
    }
}

pub open spec fn sem_mul(m: Machine, d: Decoded) -> Outcome {
    let p = gpr(m, "rax"@) as int * op_value(m, d, 0) as int;
    let hi = (p / 0x1_0000_0000_0000_0000) as u64;
    let m1 = gpr_write(gpr_write(m, "rax"@, (p % 0x1_0000_0000_0000_0000) as u64), "rdx"@, hi);
    continue_with(Machine { flags: CpuFlags { cf: hi != 0, of: hi != 0, ..m1.flags }, ..m1 }, d)
}

pub const IDIV_ZERO: &'static str = "Divide by Zero Exception (#DE) in IDIV";
pub const DIV_ZERO: &'static str = "Divide by Zero Exception (#DE) in DIV";

/// Rust's truncating signed division: the quotient rounds toward zero.
pub open spec fn trunc_div(a: int, b: int) -> int {
    let q = abs(a) / abs(b);
    if (a < 0) != (b < 0) { -q } else { q }
}

/// Rust's remainder: the sign of the dividend.
pub open spec fn trunc_rem(a: int, b: int) -> int {
    let r = abs(a) % abs(b);
    if a < 0 { -r } else { r }
}

pub open spec fn abs(a: int) -> int {
    if a < 0 { -a } else { a }
}

pub open spec fn sem_idiv(m: Machine, d: Decoded) -> Outcome {
    let divisor = s64(op_value(m, d, 0));
    if divisor == 0 {
        Outcome { m, w: Seq::empty(), r: Err(IDIV_ZERO@) }
    } else {
        let dividend = s64(gpr(m, "rdx"@)) * 0x1_0000_0000_0000_0000 + gpr(m, "rax"@) as int;
        let q = trunc_div(dividend, divisor);
        let r = trunc_rem(dividend, divisor);
        continue_with(gpr_write(gpr_write(m, "rax"@, lo64(q)), "rdx"@, lo64(r)), d)
    }
}

pub open spec fn sem_div(m: Machine, d: Decoded) -> Outcome {
    let divisor = op_value(m, d, 0);
    if divisor == 0 {
        Outcome { m, w: Seq::empty(), r: Err(DIV_ZERO@) }
    } else {
        let dividend = gpr(m, "rdx"@) as int * 0x1_0000_0000_0000_0000 + gpr(m, "rax"@) as int;
        let q = dividend / divisor as int;
        let r = dividend % divisor as int;
        continue_with(gpr_write(gpr_write(m, "rax"@, lo64(q)), "rdx"@, lo64(r)), d)
    }
}

pub open spec fn sem_cqo(m: Machine, d: Decoded) -> Outcome {
    let rdx: u64 = if neg64(gpr(m, "rax"@)) { 0xFFFF_FFFF_FFFF_FFFF } else { 0 };
    continue_with(gpr_write(m, "rdx"@, rdx), d)
}

pub open spec fn sem_cdq(m: Machine, d: Decoded) -> Outcome {
    let eax = gpr(m, "rax"@) % 0x1_0000_0000;
    let edx: u64 = if eax >= 0x8000_0000 { 0xFFFF_FFFF } else { 0 };
    continue_with(gpr_write(m, "rdx"@, edx), d)
}

pub open spec fn sem_push(m: Machine, d: Decoded) -> Outcome {
    let val = op_value(m, d, 0);
    let rsp = wsub(gpr(m, "rsp"@), 8);
    let m1 = gpr_write(m, "rsp"@, rsp);
    Outcome {
        m: Machine { mem: write_u64(m1.mem, rsp, val), ..m1 },
        w: seq![memory_note("Stack"@, rsp, val)],
        r: Ok(next_ip(d)),
    }
}

pub open spec fn sem_pop(m: Machine, d: Decoded) -> Outcome {
    let rsp = gpr(m, "rsp"@);
    let val = read_u64(m.mem, rsp);
    let m1 = gpr_write(m, "rsp"@, wadd(rsp, 8));
    after_write(op_write(m1, d, 0, val, Seq::empty()), d)
}

/// A jump taken when `cond` holds and the target is a 64-bit near branch.
pub open spec fn sem_jump(m: Machine, d: Decoded, cond: bool) -> Outcome {
    if cond && d.kinds[0] == OperandKind::NearBranch64 {
        Outcome { m, w: Seq::empty(), r: Ok(d.near_branch) }
    } else {
        continue_with(m, d)
    }
}

pub open spec fn set_flags(m: Machine, d: Decoded, f: CpuFlags) -> Outcome {
    continue_with(Machine { flags: f, ..m }, d)
}

/// What the emulator does for one decoded instruction; instructions it
/// does not model only advance the instruction pointer.
#[verifier::opaque]
pub open spec fn exec_instr(m: Machine, d: Decoded) -> Outcome {
    let mn = d.mnemonic;
    if mn == "Mov"@ { sem_mov(m, d) }
    else if mn == "Lea"@ { sem_lea(m, d) }
    else if mn == "Xor"@ { sem_xor(m, d) }
    else if mn == "Adc"@ { sem_adc(m, d) }
    else if mn == "Sbb"@ { sem_sbb(m, d) }
    else if mn == "Xchg"@ { sem_xchg(m, d) }
    else if mn == "Bswap"@ { sem_bswap(m, d) }
    else if mn == "Clc"@ { set_flags(m, d, CpuFlags { cf: false, ..m.flags }) }
    else if mn == "Stc"@ { set_flags(m, d, CpuFlags { cf: true, ..m.flags }) }
    else if mn == "Cmc"@ { set_flags(m, d, CpuFlags { cf: !m.flags.cf, ..m.flags }) }
    else if mn == "Cld"@ { set_flags(m, d, CpuFlags { df: false, ..m.flags }) }
    else if mn == "Std"@ { set_flags(m, d, CpuFlags { df: true, ..m.flags }) }
    else if mn == "Add"@ { sem_add(m, d) }
    else if mn == "Sub"@ { sem_sub(m, d) }
    else if mn == "Imul"@ { sem_imul(m, d) }
    else if mn == "Mul"@ { sem_mul(m, d) }
    else if mn == "Idiv"@ { sem_idiv(m, d) }
    else if mn == "Div"@ { sem_div(m, d) }
    else if mn == "Cqo"@ { sem_cqo(m, d) }
    else if mn == "Cdq"@ { sem_cdq(m, d) }
    else if mn == "Neg"@ { sem_neg(m, d) }
    else if mn == "Inc"@ { sem_inc(m, d) }
    else if mn == "Dec"@ { sem_dec(m, d) }
    else if mn == "Cmp"@ { sem_cmp(m, d) }
    else if mn == "Test"@ { sem_test(m, d) }
    else if mn == "Push"@ { sem_push(m, d) }
    else if mn == "Pop"@ { sem_pop(m, d) }
    else if mn == "Jmp"@ { sem_jump(m, d, true) }
    else if mn == "Je"@ { sem_jump(m, d, m.flags.zf) }
    else if mn == "Jne"@ { sem_jump(m, d, !m.flags.zf) }
    else { continue_with(m, d) }
}

/// `o` is what the emulator reports: the machine `m`, the notes `w`, and
/// the result `r`.
pub open spec fn outcome_is(o: Outcome, m: Machine, w: Seq<Seq<char>>, r: Result<u64, String>) -> bool {
    &&& o.m == m
    &&& o.w == w
    &&& match r {
        Ok(x) => o.r == Ok::<u64, Seq<char>>(x),
        Err(e) => o.r == Err::<u64, Seq<char>>(e@),
    }
}

fn next_ip_exec(d: &DecodedInstruction) -> (n: u64)
    ensures
        n == next_ip(d@),
{
    wadd_exec(d.ip, d.len as u64)
}

fn write_result(ok: bool, d: &DecodedInstruction) -> (r: Result<u64, String>)
    ensures
        match r {
            Ok(x) => ok && x == next_ip(d@),
            Err(e) => !ok && e@ == INVALID_DESTINATION@,
        },
{
    if ok {
        Ok(next_ip_exec(d))
    } else {
        Err(crate::text::string_from(INVALID_DESTINATION))
    }
}

fn add_flags_exec(f: CpuFlags, op0: u64, op1: u64, res: u64, carry: bool) -> (g: CpuFlags)
    ensures
        g == add_flags(f, op0, op1, res, carry),
{
    CpuFlags { cf: carry, zf: res == 0, sf: res >= SIGN_BIT, of: ((op0 ^ res) & (op1 ^ res) & SIGN_BIT) != 0, ..f }
}

fn sub_flags_exec(f: CpuFlags, op0: u64, op1: u64, res: u64, borrow: bool) -> (g: CpuFlags)
    ensures
        g == sub_flags(f, op0, op1, res, borrow),
{
    CpuFlags { cf: borrow, zf: res == 0, sf: res >= SIGN_BIT, of: ((op0 ^ op1) & (op0 ^ res) & SIGN_BIT) != 0, ..f }
}

impl StepTracer {
    /// Writes operand 0 and, when that succeeds, sets the flags.
    fn write_then_flags(&mut self, d: &DecodedInstruction, v: u64, f: Option<CpuFlags>, w: &mut Vec<String>) -> (r: Result<u64, String>)
        requires
            old(self).wf(),
            decoded_wf(d),
        ensures
            final(self).wf(),
            final(self).step_limit() == old(self).step_limit(),
            outcome_is(
                match f {
                    Some(g) => after_write_flags(op_write(old(self).machine(), d@, 0, v, old(w).deep_view()), d@, g),
                    None => after_write(op_write(old(self).machine(), d@, 0, v, old(w).deep_view()), d@),
                },
                final(self).machine(),
                final(w).deep_view(),
                r,
            ),
    {
        let ok = self.op_write_exec(d, 0, v, w);
        if ok {
            match f {
                Some(g) => self.registers.set_flags(g),
                None => {},
            }
        }
        write_result(ok, d)
    }

    fn exec_mov(&mut self, d: &DecodedInstruction, w: &mut Vec<String>) -> (r: Result<u64, String>)
        requires
            old(self).wf(),
            decoded_wf(d),
            old(w)@.len() == 0,
        ensures
            final(self).wf(),
            final(self).step_limit() == old(self).step_limit(),
            outcome_is(sem_mov(old(self).machine(), d@), final(self).machine(), final(w).deep_view(), r),
    {
        proof {
            assert(w.deep_view() =~= Seq::<Seq<char>>::empty());
        }
        let v = self.op_value_exec(d, 1);
        self.write_then_flags(d, v, None, w)
    }

    fn exec_lea(&mut self, d: &DecodedInstruction, w: &mut Vec<String>) -> (r: Result<u64, String>)
        requires
            old(self).wf(),
            decoded_wf(d),
            old(w)@.len() == 0,
        ensures
            final(self).wf(),
            final(self).step_limit() == old(self).step_limit(),
            outcome_is(sem_lea(old(self).machine(), d@), final(self).machine(), final(w).deep_view(), r),
    {
        proof {
            assert(w.deep_view() =~= Seq::<Seq<char>>::empty());
        }
        let v = self.ea_exec(d);
        self.write_then_flags(d, v, None, w)
    }

    fn exec_xor(&mut self, d: &DecodedInstruction, w: &mut Vec<String>) -> (r: Result<u64, String>)
        requires
            old(self).wf(),
            decoded_wf(d),
            old(w)@.len() == 0,
        ensures
            final(self).wf(),
            final(self).step_limit() == old(self).step_limit(),
            outcome_is(sem_xor(old(self).machine(), d@), final(self).machine(), final(w).deep_view(), r),
    {
        proof {
            assert(w.deep_view() =~= Seq::<Seq<char>>::empty());
        }
        let res = self.op_value_exec(d, 0) ^ self.op_value_exec(d, 1);
        let f = CpuFlags { cf: false, of: false, zf: res == 0, sf: res >= SIGN_BIT, ..self.registers.flags };
        self.write_then_flags(d, res, Some(f), w)
    }

    fn exec_adc(&mut self, d: &DecodedInstruction, w: &mut Vec<String>) -> (r: Result<u64, String>)
        requires
            old(self).wf(),
            decoded_wf(d),
            old(w)@.len() == 0,
        ensures
            final(self).wf(),
            final(self).step_limit() == old(self).step_limit(),
            outcome_is(sem_adc(old(self).machine(), d@), final(self).machine(), final(w).deep_view(), r),
    {
        proof {
            assert(w.deep_view() =~= Seq::<Seq<char>>::empty());
        }
        let op0 = self.op_value_exec(d, 0);
        let op1 = self.op_value_exec(d, 1);
        let cin: u64 = if self.registers.flags.cf { 1 } else { 0 };
        let res1 = wadd_exec(op0, op1);
        let res = wadd_exec(res1, cin);
        let carry = op0 > u64::MAX - op1 || res1 > u64::MAX - cin;
        let f = add_flags_exec(self.registers.flags, op0, op1, res, carry);
        self.write_then_flags(d, res, Some(f), w)
    }

    fn exec_sbb(&mut self, d: &DecodedInstruction, w: &mut Vec<String>) -> (r: Result<u64, String>)
        requires
            old(self).wf(),
            decoded_wf(d),
            old(w)@.len() == 0,
        ensures
            final(self).wf(),
            final(self).step_limit() == old(self).step_limit(),
            outcome_is(sem_sbb(old(self).machine(), d@), final(self).machine(), final(w).deep_view(), r),
    {
        proof {
            assert(w.deep_view() =~= Seq::<Seq<char>>::empty());
        }
        let op0 = self.op_value_exec(d, 0);
        let op1 = self.op_value_exec(d, 1);
        let bin: u64 = if self.registers.flags.cf { 1 } else { 0 };
        let res1 = wsub_exec(op0, op1);
        let res = wsub_exec(res1, bin);
        let borrow = op0 < op1 || res1 < bin;
        let f = sub_flags_exec(self.registers.flags, op0, op1, res, borrow);
        self.write_then_flags(d, res, Some(f), w)
    }

    fn exec_add(&mut self, d: &DecodedInstruction, w: &mut Vec<String>) -> (r: Result<u64, String>)
        requires
            old(self).wf(),
            decoded_wf(d),
            old(w)@.len() == 0,
        ensures
            final(self).wf(),
            final(self).step_limit() == old(self).step_limit(),
            outcome_is(sem_add(old(self).machine(), d@), final(self).machine(), final(w).deep_view(), r),
    {
        proof {
            assert(w.deep_view() =~= Seq::<Seq<char>>::empty());
        }
        let op0 = self.op_value_exec(d, 0);
        let op1 = self.op_value_exec(d, 1);
        let res = wadd_exec(op0, op1);
        let f = add_flags_exec(self.registers.flags, op0, op1, res, op0 > u64::MAX - op1);
        self.write_then_flags(d, res, Some(f), w)
    }

    fn exec_sub(&mut self, d: &DecodedInstruction, w: &mut Vec<String>) -> (r: Result<u64, String>)
        requires
            old(self).wf(),
            decoded_wf(d),
            old(w)@.len() == 0,
        ensures
            final(self).wf(),
            final(self).step_limit() == old(self).step_limit(),
            outcome_is(sem_sub(old(self).machine(), d@), final(self).machine(), final(w).deep_view(), r),
    {
        proof {
            assert(w.deep_view() =~= Seq::<Seq<char>>::empty());
        }
        let op0 = self.op_value_exec(d, 0);
        let op1 = self.op_value_exec(d, 1);
        let res = wsub_exec(op0, op1);
        let f = sub_flags_exec(self.registers.flags, op0, op1, res, op0 < op1);
        self.write_then_flags(d, res, Some(f), w)
    }

    fn exec_cmp(&mut self, d: &DecodedInstruction, w: &mut Vec<String>) -> (r: Result<u64, String>)
        requires
            old(self).wf(),
            decoded_wf(d),
            old(w)@.len() == 0,
        ensures
            final(self).wf(),
            final(self).step_limit() == old(self).step_limit(),
            outcome_is(sem_cmp(old(self).machine(), d@), final(self).machine(), final(w).deep_view(), r),
    {
        proof {
            assert(w.deep_view() =~= Seq::<Seq<char>>::empty());
        }
        let op0 = self.op_value_exec(d, 0);
        let op1 = self.op_value_exec(d, 1);
        let res = wsub_exec(op0, op1);
        let f = sub_flags_exec(self.registers.flags, op0, op1, res, op0 < op1);
        self.registers.set_flags(f);
        Ok(next_ip_exec(d))
    }

    fn exec_test(&mut self, d: &DecodedInstruction, w: &mut Vec<String>) -> (r: Result<u64, String>)
        requires
            old(self).wf(),
            decoded_wf(d),
            old(w)@.len() == 0,
        ensures
            final(self).wf(),
            final(self).step_limit() == old(self).step_limit(),
            outcome_is(sem_test(old(self).machine(), d@), final(self).machine(), final(w).deep_view(), r),
    {
        proof {
            assert(w.deep_view() =~= Seq::<Seq<char>>::empty());
        }
        let res = self.op_value_exec(d, 0) & self.op_value_exec(d, 1);
        let f = CpuFlags { cf: false, of: false, zf: res == 0, sf: res >= SIGN_BIT, ..self.registers.flags };
        self.registers.set_flags(f);
        Ok(next_ip_exec(d))
    }

    fn exec_xchg(&mut self, d: &DecodedInstruction, w: &mut Vec<String>) -> (r: Result<u64, String>)
        requires
            old(self).wf(),
            decoded_wf(d),
            old(w)@.len() == 0,
        ensures
            final(self).wf(),
            final(self).step_limit() == old(self).step_limit(),
            outcome_is(sem_xchg(old(self).machine(), d@), final(self).machine(), final(w).deep_view(), r),
    {
        proof {
            assert(w.deep_view() =~= Seq::<Seq<char>>::empty());
        }
        let v0 = self.op_value_exec(d, 0);
        let v1 = self.op_value_exec(d, 1);
        let ok0 = self.op_write_exec(d, 0, v1, w);
        if !ok0 {
            return write_result(false, d);
        }
        let ok1 = self.op_write_exec(d, 1, v0, w);
        write_result(ok1, d)
    }
}

proof fn lemma_bswap_bound(v: u64, k: int)
    requires
        0 <= k <= 8,
    ensures
        0 <= bswap_prefix(v, k) < pow256(k),
    decreases k,
{
    if k > 0 {
        lemma_bswap_bound(v, k - 1);
        assert(byte_of(v, k - 1) < 256);
    }
}

fn bswap_exec(v: u64) -> (r: u64)
    ensures
        r == bswap(v),
{
    let mut r: u64 = 0;
    let mut x: u64 = v;
    let mut i: u64 = 0;
    while i < 8
        invariant
            i <= 8,
            r as int == bswap_prefix(v, i as int),
            x as int == v as int / pow256(i as int),
        decreases 8 - i,
    {
        proof {
            lemma_pow256_pos(i as int);
            lemma_bswap_bound(v, i as int);
            lemma_bswap_bound(v, i + 1);
            assert(pow256(i + 1) == 256 * pow256(i as int));
            lemma_pow256_8();
            lemma_pow256_mono(i + 1, 8);
            lemma_div_div(v as int, pow256(i as int), 256);
        }
        r = r * 256 + x % 256;
        x = x / 256;
        i = i + 1;
    }
    r
}

proof fn lemma_pow256_8()
    ensures
        pow256(8) == 0x1_0000_0000_0000_0000,
{
    reveal_with_fuel(pow256, 9);
}

proof fn lemma_pow256_mono(i: int, j: int)
    requires
        0 <= i <= j,
    ensures
        pow256(i) <= pow256(j),
    decreases j - i,
{
    if i < j {
        lemma_pow256_mono(i, j - 1);
        lemma_pow256_pos(j - 1);
    }
}

/// The two's complement of `p` in 128 bits.
fn twos128(p: i128) -> (u: u128)
    ensures
        u as int == (p as int) % (0x1_0000_0000_0000_0000int * 0x1_0000_0000_0000_0000int),
{
    if p >= 0 {
        p as u128
    } else {
        let m: u128 = (-(p + 1)) as u128;
        u128::MAX - m
    }
}

/// `lo64` of a value in the `i128` range.
fn lo64_exec(p: i128) -> (r: u64)
    ensures
        r == lo64(p as int),
{
    let u = twos128(p);
    proof {
        let big = 0x1_0000_0000_0000_0000int;
        assert((p as int % (big * big)) % big == p as int % big) by {
            vstd::arithmetic::div_mod::lemma_mod_mod(p as int, big, big);
        }
    }
    (u % TWO64) as u64
}

/// `hi64` of a value in the `i128` range.
fn hi64_exec(p: i128) -> (r: u64)
    ensures
        r == hi64(p as int),
{
    let u = twos128(p);
    (u / TWO64) as u64
}

fn s64_exec(v: u64) -> (r: i128)
    ensures
        r as int == s64(v),
{
    if v >= SIGN_BIT { v as i128 - 0x1_0000_0000_0000_0000 } else { v as i128 }
}

impl StepTracer {
    fn exec_bswap(&mut self, d: &DecodedInstruction, w: &mut Vec<String>) -> (r: Result<u64, String>)
        requires
            old(self).wf(),
            decoded_wf(d),
            old(w)@.len() == 0,
        ensures
            final(self).wf(),
            final(self).step_limit() == old(self).step_limit(),
            outcome_is(sem_bswap(old(self).machine(), d@), final(self).machine(), final(w).deep_view(), r),
    {
        proof {
            assert(w.deep_view() =~= Seq::<Seq<char>>::empty());
        }
        let v = bswap_exec(self.op_value_exec(d, 0));
        self.write_then_flags(d, v, None, w)
    }

    fn exec_neg(&mut self, d: &DecodedInstruction, w: &mut Vec<String>) -> (r: Result<u64, String>)
        requires
            old(self).wf(),
            decoded_wf(d),
            old(w)@.len() == 0,
        ensures
            final(self).wf(),
            final(self).step_limit() == old(self).step_limit(),
            outcome_is(sem_neg(old(self).machine(), d@), final(self).machine(), final(w).deep_view(), r),
    {
        proof {
            assert(w.deep_view() =~= Seq::<Seq<char>>::empty());
        }
        let op0 = self.op_value_exec(d, 0);
        let res = wsub_exec(0, op0);
        let f = CpuFlags { cf: op0 != 0, zf: res == 0, sf: res >= SIGN_BIT, of: op0 == SIGN_BIT, ..self.registers.flags };
        self.write_then_flags(d, res, Some(f), w)
    }

    fn exec_inc(&mut self, d: &DecodedInstruction, w: &mut Vec<String>) -> (r: Result<u64, String>)
        requires
            old(self).wf(),
            decoded_wf(d),
            old(w)@.len() == 0,
        ensures
            final(self).wf(),
            final(self).step_limit() == old(self).step_limit(),
            outcome_is(sem_inc(old(self).machine(), d@), final(self).machine(), final(w).deep_view(), r),
    {
        proof {
            assert(w.deep_view() =~= Seq::<Seq<char>>::empty());
        }
        let op0 = self.op_value_exec(d, 0);
        let res = wadd_exec(op0, 1);
        let f = CpuFlags { zf: res == 0, sf: res >= SIGN_BIT, of: op0 == 0x7FFF_FFFF_FFFF_FFFF, ..self.registers.flags };
        self.write_then_flags(d, res, Some(f), w)
    }

    fn exec_dec(&mut self, d: &DecodedInstruction, w: &mut Vec<String>) -> (r: Result<u64, String>)
        requires
            old(self).wf(),
            decoded_wf(d),
            old(w)@.len() == 0,
        ensures
            final(self).wf(),
            final(self).step_limit() == old(self).step_limit(),
            outcome_is(sem_dec(old(self).machine(), d@), final(self).machine(), final(w).deep_view(), r),
    {
        proof {
            assert(w.deep_view() =~= Seq::<Seq<char>>::empty());
        }
        let op0 = self.op_value_exec(d, 0);
        let res = wsub_exec(op0, 1);
        let f = CpuFlags { zf: res == 0, sf: res >= SIGN_BIT, of: op0 == SIGN_BIT, ..self.registers.flags };
        self.write_then_flags(d, res, Some(f), w)
    }

    fn imul_into_exec(&mut self, d: &DecodedInstruction, a: u64, b: u64, w: &mut Vec<String>) -> (r: Result<u64, String>)
        requires
            old(self).wf(),
            decoded_wf(d),
            old(w)@.len() == 0,
        ensures
            final(self).wf(),
            final(self).step_limit() == old(self).step_limit(),
            outcome_is(imul_into(old(self).machine(), d@, a, b), final(self).machine(), final(w).deep_view(), r),
    {
        proof {
            assert(w.deep_view() =~= Seq::<Seq<char>>::empty());
        }
        let x = s64_exec(a);
        let y = s64_exec(b);
        proof {
            assert(-0x4000_0000_0000_0000_0000_0000_0000_0000 <= x * y <= 0x4000_0000_0000_0000_0000_0000_0000_0000) by (nonlinear_arith)
                requires
                    -0x8000_0000_0000_0000 <= x < 0x8000_0000_0000_0000,
                    -0x8000_0000_0000_0000 <= y < 0x8000_0000_0000_0000,
            ;
        }
        let p: i128 = x * y;
        let overflow = p < i64::MIN as i128 || p > i64::MAX as i128;
        let f = CpuFlags { of: overflow, cf: overflow, ..self.registers.flags };
        let lo = lo64_exec(p);
        self.write_then_flags(d, lo, Some(f), w)
    }

    fn exec_imul(&mut self, d: &DecodedInstruction, w: &mut Vec<String>) -> (r: Result<u64, String>)
        requires
            old(self).wf(),
            decoded_wf(d),
            old(w)@.len() == 0,
        ensures
            final(self).wf(),
            final(self).step_limit() == old(self).step_limit(),
            outcome_is(sem_imul(old(self).machine(), d@), final(self).machine(), final(w).deep_view(), r),
    {
        proof {
            assert(w.deep_view() =~= Seq::<Seq<char>>::empty());
        }
        if d.op_count == 2 {
            let a = self.op_value_exec(d, 0);
            let b = self.op_value_exec(d, 1);
            self.imul_into_exec(d, a, b, w)
        } else if d.op_count == 3 {
            let a = self.op_value_exec(d, 1);
            let b = self.op_value_exec(d, 2);
            self.imul_into_exec(d, a, b, w)
        } else {
            let x = s64_exec(self.gpr_exec("rax"));
            let y = s64_exec(self.op_value_exec(d, 0));
            proof {
                assert(-0x4000_0000_0000_0000_0000_0000_0000_0000 <= x * y <= 0x4000_0000_0000_0000_0000_0000_0000_0000) by (nonlinear_arith)
                    requires
                        -0x8000_0000_0000_0000 <= x < 0x8000_0000_0000_0000,
                        -0x8000_0000_0000_0000 <= y < 0x8000_0000_0000_0000,
                ;
                reveal_strlit("rax");
                reveal_strlit("rdx");
            }
            let p: i128 = x * y;
            self.gpr_write_exec("rax", lo64_exec(p));
            self.gpr_write_exec("rdx", hi64_exec(p));
            Ok(next_ip_exec(d))
        }
    }

    fn exec_mul(&mut self, d: &DecodedInstruction, w: &mut Vec<String>) -> (r: Result<u64, String>)
        requires
            old(self).wf(),
            decoded_wf(d),
            old(w)@.len() == 0,
        ensures
            final(self).wf(),
            final(self).step_limit() == old(self).step_limit(),
            outcome_is(sem_mul(old(self).machine(), d@), final(self).machine(), final(w).deep_view(), r),
    {
        proof {
            assert(w.deep_view() =~= Seq::<Seq<char>>::empty());
        }
        let a = self.gpr_exec("rax") as u128;
        let b = self.op_value_exec(d, 0) as u128;
        proof {
            assert(a * b <= 0xFFFF_FFFF_FFFF_FFFF * 0xFFFF_FFFF_FFFF_FFFF) by (nonlinear_arith)
                requires
                    a <= 0xFFFF_FFFF_FFFF_FFFF,
                    b <= 0xFFFF_FFFF_FFFF_FFFF,
            ;
            reveal_strlit("rax");
            reveal_strlit("rdx");
        }
        let p = a * b;
        let hi = (p / TWO64) as u64;
        self.gpr_write_exec("rax", (p % TWO64) as u64);
        self.gpr_write_exec("rdx", hi);
        let f = CpuFlags { cf: hi != 0, of: hi != 0, ..self.registers.flags };
        self.registers.set_flags(f);
        Ok(next_ip_exec(d))
    }

    fn exec_div(&mut self, d: &DecodedInstruction, w: &mut Vec<String>) -> (r: Result<u64, String>)
        requires
            old(self).wf(),
            decoded_wf(d),
            old(w)@.len() == 0,
        ensures
            final(self).wf(),
            final(self).step_limit() == old(self).step_limit(),
            outcome_is(sem_div(old(self).machine(), d@), final(self).machine(), final(w).deep_view(), r),
    {
        proof {
            assert(w.deep_view() =~= Seq::<Seq<char>>::empty());
        }
        let divisor = self.op_value_exec(d, 0);
        if divisor == 0 {
            return Err(crate::text::string_from(DIV_ZERO));
        }
        proof {
            reveal_strlit("rax");
            reveal_strlit("rdx");
        }
        let hi = self.gpr_exec("rdx") as u128;
        let lo = self.gpr_exec("rax") as u128;
        proof {
            assert(hi * 0x1_0000_0000_0000_0000 + lo <= 0xFFFF_FFFF_FFFF_FFFF * 0x1_0000_0000_0000_0000 + 0xFFFF_FFFF_FFFF_FFFF) by (nonlinear_arith)
                requires
                    hi <= 0xFFFF_FFFF_FFFF_FFFF,
                    lo <= 0xFFFF_FFFF_FFFF_FFFF,
            ;
        }
        let dividend: u128 = hi * TWO64 + lo;
        let q = dividend / (divisor as u128);
        let r = dividend % (divisor as u128);
        proof {
            assert(r < divisor);
        }
        self.gpr_write_exec("rax", (q % TWO64) as u64);
        self.gpr_write_exec("rdx", r as u64);
        Ok(next_ip_exec(d))
    }

    fn exec_cqo(&mut self, d: &DecodedInstruction, w: &mut Vec<String>) -> (r: Result<u64, String>)
        requires
            old(self).wf(),
            decoded_wf(d),
            old(w)@.len() == 0,
        ensures
            final(self).wf(),
            final(self).step_limit() == old(self).step_limit(),
            outcome_is(sem_cqo(old(self).machine(), d@), final(self).machine(), final(w).deep_view(), r),
    {
        proof {
            assert(w.deep_view() =~= Seq::<Seq<char>>::empty());
        }
        proof {
            reveal_strlit("rax");
            reveal_strlit("rdx");
        }
        let rdx: u64 = if self.gpr_exec("rax") >= SIGN_BIT { 0xFFFF_FFFF_FFFF_FFFF } else { 0 };
        self.gpr_write_exec("rdx", rdx);
        Ok(next_ip_exec(d))
    }

    fn exec_cdq(&mut self, d: &DecodedInstruction, w: &mut Vec<String>) -> (r: Result<u64, String>)
        requires
            old(self).wf(),
            decoded_wf(d),
            old(w)@.len() == 0,
        ensures
            final(self).wf(),
            final(self).step_limit() == old(self).step_limit(),
            outcome_is(sem_cdq(old(self).machine(), d@), final(self).machine(), final(w).deep_view(), r),
    {
        proof {
            assert(w.deep_view() =~= Seq::<Seq<char>>::empty());
        }
        proof {
            reveal_strlit("rax");
            reveal_strlit("rdx");
        }
        let eax = self.gpr_exec("rax") % 0x1_0000_0000;
        let edx: u64 = if eax >= 0x8000_0000 { 0xFFFF_FFFF } else { 0 };
        self.gpr_write_exec("rdx", edx);
        Ok(next_ip_exec(d))
    }

    fn exec_push(&mut self, d: &DecodedInstruction, w: &mut Vec<String>) -> (r: Result<u64, String>)
        requires
            old(self).wf(),
            decoded_wf(d),
            old(w)@.len() == 0,
        ensures
            final(self).wf(),
            final(self).step_limit() == old(self).step_limit(),
            outcome_is(sem_push(old(self).machine(), d@), final(self).machine(), final(w).deep_view(), r),
    {
        proof {
            assert(w.deep_view() =~= Seq::<Seq<char>>::empty());
        }
        proof {
            reveal_strlit("rsp");
        }
        let val = self.op_value_exec(d, 0);
        let rsp = wsub_exec(self.gpr_exec("rsp"), 8);
        self.gpr_write_exec("rsp", rsp);
        self.write_u64(rsp, val);
        push_note(w, fmt_note("Stack", rsp, val));
        proof {
            assert(w.deep_view() =~= seq![memory_note("Stack"@, rsp, val)]);
        }
        Ok(next_ip_exec(d))
    }

    fn exec_pop(&mut self, d: &DecodedInstruction, w: &mut Vec<String>) -> (r: Result<u64, String>)
        requires
            old(self).wf(),
            decoded_wf(d),
            old(w)@.len() == 0,
        ensures
            final(self).wf(),
            final(self).step_limit() == old(self).step_limit(),
            outcome_is(sem_pop(old(self).machine(), d@), final(self).machine(), final(w).deep_view(), r),
    {
        proof {
            assert(w.deep_view() =~= Seq::<Seq<char>>::empty());
        }
        proof {
            reveal_strlit("rsp");
        }
        let rsp = self.gpr_exec("rsp");
        let val = self.read_u64(rsp);
        self.gpr_write_exec("rsp", wadd_exec(rsp, 8));
        self.write_then_flags(d, val, None, w)
    }

}

proof fn lemma_neg_mod64(x: int)
    requires
        x >= 0,
    ensures
        (-x) % 0x1_0000_0000_0000_0000int == (if x % 0x1_0000_0000_0000_0000int == 0 { 0int } else { 0x1_0000_0000_0000_0000int - x % 0x1_0000_0000_0000_0000int }),
{
    let m = 0x1_0000_0000_0000_0000int;
    vstd::arithmetic::div_mod::lemma_fundamental_div_mod(x, m);
    let q = x / m;
    let r = x % m;
    if r == 0 {
        assert(-x == m * (-q));
        vstd::arithmetic::div_mod::lemma_mod_multiples_basic(-q, m);
        assert((m * (-q)) % m == ((-q) * m) % m) by (nonlinear_arith);
    } else {
        assert(-x == m * (-q - 1) + (m - r)) by (nonlinear_arith)
            requires
                x == m * q + r,
        ;
        vstd::arithmetic::div_mod::lemma_mod_multiples_vanish(-q - 1, m - r, m);
        vstd::arithmetic::div_mod::lemma_small_mod((m - r) as nat, m as nat);
        assert((m * (-q - 1) + (m - r)) % m == (m - r) % m) by (nonlinear_arith)
            requires
                ((-q - 1) * m + (m - r)) % m == (m - r) % m,
        ;
    }
}

/// `lo64` of `q` given as a sign and a magnitude.
fn lo64_signed(neg: bool, mag: u128) -> (r: u64)
    ensures
        r == lo64(if neg { -(mag as int) } else { mag as int }),
{
    let low = (mag % TWO64) as u64;
    if neg {
        proof {
            lemma_neg_mod64(mag as int);
        }
        wsub_exec(0, low)
    } else {
        low
    }
}

impl StepTracer {
    fn exec_idiv(&mut self, d: &DecodedInstruction, w: &mut Vec<String>) -> (r: Result<u64, String>)
        requires
            old(self).wf(),
            decoded_wf(d),
            old(w)@.len() == 0,
        ensures
            final(self).wf(),
            final(self).step_limit() == old(self).step_limit(),
            outcome_is(sem_idiv(old(self).machine(), d@), final(self).machine(), final(w).deep_view(), r),
    {
        proof {
            assert(w.deep_view() =~= Seq::<Seq<char>>::empty());
            reveal_strlit("rax");
            reveal_strlit("rdx");
        }
        let divisor = s64_exec(self.op_value_exec(d, 0));
        if divisor == 0 {
            return Err(crate::text::string_from(IDIV_ZERO));
        }
        let hi = s64_exec(self.gpr_exec("rdx"));
        let lo = self.gpr_exec("rax") as i128;
        proof {
            assert(-0x8000_0000_0000_0000_0000_0000_0000_0000 <= hi * 0x1_0000_0000_0000_0000 + lo < 0x8000_0000_0000_0000_0000_0000_0000_0000) by (nonlinear_arith)
                requires
                    -0x8000_0000_0000_0000 <= hi < 0x8000_0000_0000_0000,
                    0 <= lo < 0x1_0000_0000_0000_0000,
            ;
        }
        let dividend: i128 = hi * 0x1_0000_0000_0000_0000 + lo;
        let am: u128 = if dividend >= 0 { dividend as u128 } else { (-(dividend + 1)) as u128 + 1 };
        let bm: u128 = if divisor >= 0 { divisor as u128 } else { (-divisor) as u128 };
        let qm = am / bm;
        let rm = am % bm;
        let q = lo64_signed((dividend < 0) != (divisor < 0), qm);
        let rr = lo64_signed(dividend < 0, rm);
        self.gpr_write_exec("rax", q);
        self.gpr_write_exec("rdx", rr);
        Ok(next_ip_exec(d))
    }

    fn exec_flags(&mut self, d: &DecodedInstruction, f: CpuFlags) -> (r: Result<u64, String>)
        requires
            old(self).wf(),
        ensures
            final(self).wf(),
            final(self).step_limit() == old(self).step_limit(),
            outcome_is(set_flags(old(self).machine(), d@, f), final(self).machine(), Seq::empty(), r),
    {
        self.registers.set_flags(f);
        Ok(next_ip_exec(d))
    }

    fn exec_jump(&self, d: &DecodedInstruction, cond: bool) -> (r: Result<u64, String>)
        requires
            decoded_wf(d),
        ensures
            outcome_is(sem_jump(self.machine(), d@, cond), self.machine(), Seq::empty(), r),
    {
        if cond && d.kinds[0] == OperandKind::NearBranch64 {
            Ok(d.near_branch)
        } else {
            Ok(next_ip_exec(d))
        }
    }
}

impl StepTracer {
    /// Executes one decoded instruction; the notes of the memory it wrote
    /// go to `w`.
    #[verifier::spinoff_prover]
    pub fn execute_instruction(&mut self, d: &DecodedInstruction, w: &mut Vec<String>) -> (r: Result<u64, String>)
        requires
            old(self).wf(),
            decoded_wf(d),
            old(w)@.len() == 0,
        ensures
            final(self).wf(),
            final(self).step_limit() == old(self).step_limit(),
            outcome_is(exec_instr(old(self).machine(), d@), final(self).machine(), final(w).deep_view(), r),
    {
        proof {
            assert(w.deep_view() =~= Seq::<Seq<char>>::empty());
            reveal(exec_instr);
        }
        let mn = chars_of_string(&d.mnemonic);
        if eq_str(&mn, "Mov") {
            self.exec_mov(d, w)
        } else if eq_str(&mn, "Lea") {
            self.exec_lea(d, w)
        } else if eq_str(&mn, "Xor") {
            self.exec_xor(d, w)
        } else if eq_str(&mn, "Adc") {
            self.exec_adc(d, w)
        } else if eq_str(&mn, "Sbb") {
            self.exec_sbb(d, w)
        } else if eq_str(&mn, "Xchg") {
            self.exec_xchg(d, w)
        } else if eq_str(&mn, "Bswap") {
            self.exec_bswap(d, w)
        } else if eq_str(&mn, "Clc") {
            self.exec_flags(d, CpuFlags { cf: false, ..self.registers.flags })
        } else if eq_str(&mn, "Stc") {
            self.exec_flags(d, CpuFlags { cf: true, ..self.registers.flags })
        } else if eq_str(&mn, "Cmc") {
            self.exec_flags(d, CpuFlags { cf: !self.registers.flags.cf, ..self.registers.flags })
        } else if eq_str(&mn, "Cld") {
            self.exec_flags(d, CpuFlags { df: false, ..self.registers.flags })
        } else if eq_str(&mn, "Std") {
            self.exec_flags(d, CpuFlags { df: true, ..self.registers.flags })
        } else if eq_str(&mn, "Add") {
            self.exec_add(d, w)
        } else if eq_str(&mn, "Sub") {
            self.exec_sub(d, w)
        } else if eq_str(&mn, "Imul") {
            self.exec_imul(d, w)
        } else if eq_str(&mn, "Mul") {
            self.exec_mul(d, w)
        } else if eq_str(&mn, "Idiv") {
            self.exec_idiv(d, w)
        } else if eq_str(&mn, "Div") {
            self.exec_div(d, w)
        } else if eq_str(&mn, "Cqo") {
            self.exec_cqo(d, w)
        } else if eq_str(&mn, "Cdq") {
            self.exec_cdq(d, w)
        } else if eq_str(&mn, "Neg") {
            self.exec_neg(d, w)
        } else if eq_str(&mn, "Inc") {
            self.exec_inc(d, w)
        } else if eq_str(&mn, "Dec") {
            self.exec_dec(d, w)
        } else if eq_str(&mn, "Cmp") {
            self.exec_cmp(d, w)
        } else if eq_str(&mn, "Test") {
            self.exec_test(d, w)
        } else if eq_str(&mn, "Push") {
            self.exec_push(d, w)
        } else if eq_str(&mn, "Pop") {
            self.exec_pop(d, w)
        } else if eq_str(&mn, "Jmp") {
            self.exec_jump(d, true)
        } else if eq_str(&mn, "Je") {
            self.exec_jump(d, self.registers.flags.zf)
        } else if eq_str(&mn, "Jne") {
            self.exec_jump(d, !self.registers.flags.zf)
        } else {
            Ok(next_ip_exec(d))
        }
    }
}

// ---------------------------------------------------------------------------
// Tracing.

/// The registers whose value changed, in name order: each name of `after`,
/// its value there, and what `get` read for it before.
pub open spec fn reg_changes(before: Map<Seq<char>, u64>, after: Map<Seq<char>, u64>, names: Seq<Seq<char>>) -> Seq<RegChange>
    decreases names.len(),
{
    if names.len() == 0 {
        Seq::empty()
    } else {
        let rest = reg_changes(before, after, names.drop_last());
        let k = names.last();
        let a = reg_or_zero(after, k);
        let b = reg_or_zero(before, unicode_lowercase(k));
        if a != b {
            rest.push(RegChange { reg: k, before: b, after: a })
        } else {
            rest
        }
    }
}

pub open spec fn flag_change(name: Seq<char>, b: bool, a: bool) -> Seq<FlagChange> {
    if b != a { seq![FlagChange { flag: name, before: b, after: a }] } else { Seq::empty() }
}

/// The changes of CF, ZF, SF and OF, in that order.
pub open spec fn flag_changes(b: CpuFlags, a: CpuFlags) -> Seq<FlagChange> {
    flag_change("CF"@, b.cf, a.cf) + flag_change("ZF"@, b.zf, a.zf) + flag_change("SF"@, b.sf, a.sf)
        + flag_change("OF"@, b.of, a.of)
}

/// `{:02x}` formatting of a byte.
pub open spec fn hex2(b: u8) -> Seq<char> {
    crate::text::pad_zeros(digits(b as nat, 16), 2)
}

/// The bytes in hexadecimal, separated by spaces.
pub open spec fn hex_bytes(code: Seq<u8>) -> Seq<char> {
    crate::text::join(Seq::new(code.len(), |i: int| hex2(code[i])), " "@)
}

/// The Intel text of the instruction occupying `code`, or its mnemonic.
pub open spec fn step_text(code: Seq<u8>, ip: u64, mnemonic: Seq<char>) -> Seq<char> {
    let l = crate::assembler::iced_backend::disasm_from(code, 0, ip, crate::types::Syntax::Intel);
    if l.len() > 0 { l[0].text } else { mnemonic }
}

/// A trace from the instruction at `ip`, `count` steps in: the machine at
/// the end, and the steps or the fault.
pub open spec fn trace_loop(m: Machine, code: Seq<u8>, base: u64, ip: u64, count: nat, max: nat) -> (Machine, Result<Seq<Step>, Seq<char>>)
    decreases max - count,
{
    if count >= max {
        (m, Ok(Seq::empty()))
    } else {
        let off = (wsub(ip, base) as usize) as int;
        if off >= code.len() {
            (m, Ok(Seq::empty()))
        } else {
            let d = decoded_at(code.skip(off), ip);
            let o = exec_instr(m, d);
            match o.r {
                Err(e) => (o.m, Err(e)),
                Ok(next) => {
                    let piece = code.subrange(off, off + d.len);
                    let st = Step {
                        step: count as int + 1,
                        address: ip,
                        instruction: step_text(piece, ip, d.mnemonic),
                        bytes: hex_bytes(piece),
                        reg_diffs: reg_changes(m.regs, o.m.regs, crate::cpu::sorted_keys(o.m.regs)),
                        flag_diffs: flag_changes(m.flags, o.m.flags),
                        memory_writes: o.w,
                    };
                    if d.flow == FlowKind::Return {
                        (o.m, Ok(seq![st]))
                    } else {
                        let later = trace_loop(gpr_write(o.m, "rip"@, next), code, base, next, count + 1, max);
                        (later.0, match later.1 {
                            Ok(r) => Ok(seq![st] + r),
                            Err(e) => Err(e),
                        })
                    }
                },
            }
        }
    }
}

/// What `trace` does: `rip` set to the base address, then steps until a
/// `ret`, the end of the code, a fault, or the step limit.
pub open spec fn trace_spec(m: Machine, code: Seq<u8>, base: u64, max: nat) -> (Machine, Result<Seq<Step>, Seq<char>>) {
    trace_loop(gpr_write(m, "rip"@, base), code, base, base, 0, max)
}

proof fn lemma_trace_loop_numbering(m: Machine, code: Seq<u8>, base: u64, ip: u64, count: nat, max: nat)
    ensures
        trace_loop(m, code, base, ip, count, max).1 matches Ok(r) ==> {
            &&& count + r.len() <= max || r.len() == 0
            &&& forall|i: int| 0 <= i < r.len() ==> #[trigger] r[i].step == count + i + 1
            &&& r.len() > 0 ==> r[0].address == ip
        },
    decreases max - count,
{
    if count < max {
        let off = (wsub(ip, base) as usize) as int;
        if off < code.len() {
            let d = decoded_at(code.skip(off), ip);
            let o = exec_instr(m, d);
            if o.r is Ok && d.flow != FlowKind::Return {
                let next = o.r->Ok_0;
                lemma_trace_loop_numbering(gpr_write(o.m, "rip"@, next), code, base, next, count + 1, max);
                let later = trace_loop(gpr_write(o.m, "rip"@, next), code, base, next, count + 1, max);
                if later.1 is Ok {
                    let r = later.1->Ok_0;
                    let full = trace_loop(m, code, base, ip, count, max).1->Ok_0;
                    assert forall|i: int| 0 <= i < full.len() implies #[trigger] full[i].step == count + i + 1 by {
                        if i > 0 {
                            assert(full[i] == r[i - 1]);
                        }
                    }
                }
            }
        }
    }
}

/// A trace that ends without a fault numbers its steps 1, 2, ... in order,
/// starts at the base address, and takes no more steps than the limit.
pub proof fn law_trace_numbering(m: Machine, code: Seq<u8>, base: u64, max: nat)
    ensures
        trace_spec(m, code, base, max).1 matches Ok(steps) ==> {
            &&& steps.len() <= max
            &&& forall|i: int| 0 <= i < steps.len() ==> #[trigger] steps[i].step == i + 1
            &&& steps.len() > 0 ==> steps[0].address == base
        },
{
    lemma_trace_loop_numbering(gpr_write(m, "rip"@, base), code, base, base, 0, max);
}

/// `done` steps in front of a trace's result.
pub open spec fn prepend(done: Seq<Step>, x: (Machine, Result<Seq<Step>, Seq<char>>)) -> (Machine, Result<Seq<Step>, Seq<char>>) {
    (x.0, match x.1 {
        Ok(r) => Ok(done + r),
        Err(e) => Err(e),
    })
}

fn hex2_exec(b: u8) -> (s: Vec<char>)
    ensures
        s@ == hex2(b),
{
    let d = crate::text::digits_exec(b as u64, 16);
    if d.len() < 2 {
        let mut s = chars_of("0");
        append(&mut s, &d);
        proof {
            reveal_strlit("0");
            reveal_with_fuel(crate::text::pad_zeros, 3);
            assert(d@.len() == 1) by {
                reveal_with_fuel(digits, 2);
            }
            assert(s@ =~= seq!['0'] + d@);
        }
        s
    } else {
        proof {
            reveal_with_fuel(crate::text::pad_zeros, 2);
        }
        d
    }
}

pub(crate) fn hex_bytes_exec(code: &Vec<u8>) -> (s: Vec<char>)
    ensures
        s@ == hex_bytes(code@),
{
    let mut parts: Vec<Vec<char>> = Vec::new();
    let mut i: usize = 0;
    while i < code.len()
        invariant
            i <= code.len(),
            parts.deep_view() == Seq::new(i as nat, |j: int| hex2(code@[j])),
        decreases code.len() - i,
    {
        let h = hex2_exec(code[i]);
        crate::text::push_text(&mut parts, h);
        proof {
            assert(parts.deep_view() =~= Seq::new((i + 1) as nat, |j: int| hex2(code@[j])));
        }
        i = i + 1;
    }
    proof {
        assert(Seq::new(i as nat, |j: int| hex2(code@[j])) =~= Seq::new(code@.len(), |j: int| hex2(code@[j])));
    }
    join_exec_bytes(&parts)
}

fn join_exec_bytes(parts: &Vec<Vec<char>>) -> (s: Vec<char>)
    ensures
        s@ == crate::text::join(parts.deep_view(), " "@),
{
    crate::text::join_exec(parts, " ")
}

fn flag_change_exec(out: &mut Vec<FlagDiff>, name: &str, b: bool, a: bool)
    ensures
        final(out)@.map_values(|f: FlagDiff| f@) == old(out)@.map_values(|f: FlagDiff| f@) + flag_change(name@, b, a),
{
    let ghost o = old(out)@;
    if b != a {
        out.push(FlagDiff { flag: crate::text::string_from(name), before: b, after: a });
        proof {
            assert(out@.map_values(|f: FlagDiff| f@) =~= o.map_values(|f: FlagDiff| f@) + flag_change(name@, b, a));
        }
    } else {
        proof {
            assert(out@.map_values(|f: FlagDiff| f@) =~= o.map_values(|f: FlagDiff| f@) + flag_change(name@, b, a));
        }
    }
}

fn flag_changes_exec(b: CpuFlags, a: CpuFlags) -> (v: Vec<FlagDiff>)
    ensures
        v@.map_values(|f: FlagDiff| f@) == flag_changes(b, a),
{
    let mut v: Vec<FlagDiff> = Vec::new();
    proof {
        assert(v@.map_values(|f: FlagDiff| f@) =~= Seq::<FlagChange>::empty());
    }
    flag_change_exec(&mut v, "CF", b.cf, a.cf);
    flag_change_exec(&mut v, "ZF", b.zf, a.zf);
    flag_change_exec(&mut v, "SF", b.sf, a.sf);
    flag_change_exec(&mut v, "OF", b.of, a.of);
    proof {
        assert(Seq::<FlagChange>::empty() + flag_change("CF"@, b.cf, a.cf) =~= flag_change("CF"@, b.cf, a.cf));
    }
    v
}

fn reg_changes_exec(before: &CpuRegisters, after: &CpuRegisters) -> (v: Vec<RegisterDiff>)
    requires
        before.wf(),
        after.wf(),
    ensures
        v@.map_values(|r: RegisterDiff| r@) == reg_changes(before.regs(), after.regs(), crate::cpu::sorted_keys(after.regs())),
{
    proof {
        after.lemma_names_are_sorted_keys();
    }
    let mut v: Vec<RegisterDiff> = Vec::new();
    let n = after.len();
    let mut i: usize = 0;
    proof {
        assert(v@.map_values(|r: RegisterDiff| r@) =~= reg_changes(before.regs(), after.regs(), after.names().take(0)));
    }
    while i < n
        invariant
            i <= n == after.names().len(),
            after.wf(),
            before.wf(),
            v@.map_values(|r: RegisterDiff| r@) == reg_changes(before.regs(), after.regs(), after.names().take(i as int)),
        decreases n - i,
    {
        let (name, a) = after.entry(i);
        let b = before.get_name(&to_lowercase(&name));
        proof {
            after.lemma_names_index(i as int);
            let t = after.names().take(i + 1);
            assert(t.drop_last() =~= after.names().take(i as int));
            assert(t.last() == name@);
        }
        if a != b {
            let ghost o = v@;
            v.push(RegisterDiff { reg: string_of(&name), before: b, after: a });
            proof {
                assert(v@.map_values(|r: RegisterDiff| r@) =~= o.map_values(|r: RegisterDiff| r@).push(RegChange { reg: name@, before: b, after: a }));
            }
        }
        i = i + 1;
    }
    proof {
        assert(after.names().take(n as int) =~= after.names());
    }
    v
}

impl StepTracer {
    /// Executes the instruction at `bytes[offset..]` (address `ip`) and
    /// builds its trace step.
    fn run_step(&mut self, bytes: &[u8], offset: usize, ip: u64, step_count: usize) -> (res: (Result<(TraceStep, u64), String>, DecodedInstruction))
        requires
            old(self).wf(),
            offset < bytes@.len(),
            step_count < usize::MAX,
        ensures
            final(self).wf(),
            final(self).step_limit() == old(self).step_limit(),
            res.1@ == decoded_at(bytes@.skip(offset as int), ip),
            1 <= res.1.len <= bytes@.len() - offset,
            ({
                let d = decoded_at(bytes@.skip(offset as int), ip);
                let o = exec_instr(old(self).machine(), d);
                &&& final(self).machine() == o.m
                &&& match res.0 {
                    Err(e) => o.r == Err::<u64, Seq<char>>(e@),
                    Ok((st, next)) => {
                        let piece = bytes@.subrange(offset as int, offset + d.len);
                        &&& o.r == Ok::<u64, Seq<char>>(next)
                        &&& st@ == (Step {
                            step: step_count + 1,
                            address: ip,
                            instruction: step_text(piece, ip, d.mnemonic),
                            bytes: hex_bytes(piece),
                            reg_diffs: reg_changes(old(self).machine().regs, o.m.regs, crate::cpu::sorted_keys(o.m.regs)),
                            flag_diffs: flag_changes(old(self).machine().flags, o.m.flags),
                            memory_writes: o.w,
                        })
                    },
                }
            }),
    {
        let d = decode_at(bytes, offset, ip);
        let snap = self.registers.snapshot();
        let mut w: Vec<String> = Vec::new();
        let r = self.execute_instruction(&d, &mut w);
        let next = match r {
            Ok(x) => x,
            Err(e) => {
                return (Err(e), d);
            },
        };
        let reg_diffs = reg_changes_exec(&snap, &self.registers);
        let flag_diffs = flag_changes_exec(snap.flags, self.registers.flags);
        proof {
            assert(bytes@.len() == bytes.len());
        }
        let piece = crate::assembler::iced_backend::slice_bytes(bytes, offset, offset + d.len);
        let dis = crate::assembler::iced_backend::disassemble_x86_64(piece.as_slice(), ip, crate::types::Syntax::Intel);
        let text = if dis.len() > 0 { dis[0].text.clone() } else { d.mnemonic.clone() };
        let hex = string_of(&hex_bytes_exec(&piece));
        let st = TraceStep {
            step: step_count + 1,
            address: ip,
            instruction: text,
            bytes: hex,
            reg_diffs,
            flag_diffs,
            memory_writes: w,
        };
        proof {
            if dis@.len() > 0 {
                assert(crate::assembler::iced_backend::listing_view(dis@)[0] == dis@[0]@);
            }
        }
        (Ok((st, next)), d)
    }

    /// Runs the code from `base_ip` (its first byte), one instruction at a
    /// time, until a `ret` has executed, the instruction pointer leaves the
    /// code, a fault, or the step limit. Registers and memory carry over
    /// from earlier traces.
    #[verifier::spinoff_prover]
    pub fn trace(&mut self, bytes: &[u8], base_ip: u64) -> (res: Result<Vec<TraceStep>, String>)
        requires
            old(self).wf(),
        ensures
            final(self).wf(),
            final(self).step_limit() == old(self).step_limit(),
            trace_spec(old(self).machine(), bytes@, base_ip, old(self).step_limit()) == (final(self).machine(), match res {
                Ok(v) => Ok::<Seq<Step>, Seq<char>>(steps_view(v@)),
                Err(e) => Err::<Seq<Step>, Seq<char>>(e@),
            }),
    {
        let ghost m0 = self.machine();
        let ghost max = self.step_limit();
        proof {
            reveal_strlit("rip");
        }
        self.gpr_write_exec("rip", base_ip);
        let mut steps: Vec<TraceStep> = Vec::new();
        let mut ip = base_ip;
        let mut step_count: usize = 0;
        proof {
            assert(steps_view(steps@) =~= Seq::<Step>::empty());
            let x = trace_loop(self.machine(), bytes@, base_ip, ip, 0, max);
            assert(prepend(Seq::empty(), x) =~~= x);
        }
        while step_count < self.max_steps
            invariant
                self.wf(),
                self.step_limit() == max,
                max == old(self).step_limit(),
                m0 == old(self).machine(),
                step_count <= max,
                trace_spec(m0, bytes@, base_ip, max) == prepend(steps_view(steps@), trace_loop(self.machine(), bytes@, base_ip, ip, step_count as nat, max)),
            decreases max - step_count,
        {
            let offset = ip.wrapping_sub(base_ip) as usize;
            if offset >= bytes.len() {
                proof {
                    assert(self.step_limit() == max);
                    assert(steps_view(steps@) + Seq::<Step>::empty() =~= steps_view(steps@));
                    assert(trace_loop(self.machine(), bytes@, base_ip, ip, step_count as nat, max) == (self.machine(), Ok::<Seq<Step>, Seq<char>>(Seq::<Step>::empty())));
                }
                return Ok(steps);
            }
            let (r, d) = self.run_step(bytes, offset, ip, step_count);
            let (st, next) = match r {
                Ok(x) => x,
                Err(e) => {
                    return Err(e);
                },
            };
            let ghost stv = st@;
            let ghost done = steps_view(steps@);
            steps.push(st);
            proof {
                assert(steps_view(steps@) =~= done.push(stv));
            }
            if d.flow == FlowKind::Return {
                proof {
                    assert(done + seq![stv] =~= done.push(stv));
                }
                return Ok(steps);
            }
            proof {
                reveal_strlit("rip");
            }
            self.gpr_write_exec("rip", next);
            proof {
                let later = trace_loop(self.machine(), bytes@, base_ip, next, (step_count + 1) as nat, max);
                assert(done + (seq![stv] + Seq::<Step>::empty()) =~= done.push(stv));
                match later.1 {
                    Ok(rr) => {
                        assert(done + (seq![stv] + rr) =~= done.push(stv) + rr);
                    },
                    Err(e) => {},
                }
            }
            ip = next;
            step_count = step_count + 1;
        }
        proof {
            assert(prepend(steps_view(steps@), (self.machine(), Ok(Seq::<Step>::empty()))).1 =~~= Ok::<Seq<Step>, Seq<char>>(steps_view(steps@)));
        }
        Ok(steps)
    }
}


impl Default for StepTracer {
    fn default() -> (t: Self)
        ensures
            t.wf(),
            t.machine() == (Machine { regs: crate::cpu::initial_x86_regs(), flags: CpuFlags::cleared(), mem: Map::empty() }),
            t.step_limit() == 1000,
    {
        StepTracer::new()
    }
}


/// A 64-bit value read as a two's-complement signed integer.
pub open spec fn signed64(v: u64) -> int {
    if v < 0x8000_0000_0000_0000 { v as int } else { v - 0x1_0000_0000_0000_0000 }
}

proof fn lemma_compare_selected(m: Machine, d: Decoded)
    requires
        d.mnemonic == "Cmp"@,
    ensures
        exec_instr(m, d) == sem_cmp(m, d),
{
    reveal(exec_instr);
    reveal_strlit("Cmp");
    reveal_strlit("Mov");
    reveal_strlit("Lea");
    reveal_strlit("Xor");
    reveal_strlit("Adc");
    reveal_strlit("Sbb");
    reveal_strlit("Xchg");
    reveal_strlit("Bswap");
    reveal_strlit("Clc");
    reveal_strlit("Stc");
    reveal_strlit("Cmc");
    reveal_strlit("Cld");
    reveal_strlit("Std");
    reveal_strlit("Add");
    reveal_strlit("Sub");
    reveal_strlit("Imul");
    reveal_strlit("Mul");
    reveal_strlit("Idiv");
    reveal_strlit("Div");
    reveal_strlit("Cqo");
    reveal_strlit("Cdq");
    reveal_strlit("Neg");
    reveal_strlit("Inc");
    reveal_strlit("Dec");
    let c = "Cmp"@;
    assert(c[0] != "Mov"@[0]);
    assert(c[0] != "Lea"@[0]);
    assert(c[0] != "Xor"@[0]);
    assert(c[0] != "Adc"@[0]);
    assert(c[0] != "Sbb"@[0]);
    assert(c.len() != "Xchg"@.len());
    assert(c.len() != "Bswap"@.len());
    assert(c[1] != "Clc"@[1]);
    assert(c[0] != "Stc"@[0]);
    assert(c[2] != "Cmc"@[2]);
    assert(c[1] != "Cld"@[1]);
    assert(c[0] != "Std"@[0]);
    assert(c[0] != "Add"@[0]);
    assert(c[0] != "Sub"@[0]);
    assert(c.len() != "Imul"@.len());
    assert(c[0] != "Mul"@[0]);
    assert(c.len() != "Idiv"@.len());
    assert(c[0] != "Div"@[0]);
    assert(c[1] != "Cqo"@[1]);
    assert(c[1] != "Cdq"@[1]);
    assert(c[0] != "Neg"@[0]);
    assert(c[0] != "Inc"@[0]);
    assert(c[0] != "Dec"@[0]);
}

/// `cmp a, b` sets the flags of the subtraction `a - b` and changes nothing
/// else: carry when `a < b` unsigned, zero when `a == b`, sign the top bit
/// of `a - b` taken modulo 2^64, overflow when `a - b` over the signed
/// readings leaves the signed 64-bit range; the other flags, the registers
/// and the memory stay, and execution goes on with the next instruction.
pub proof fn law_compare_flags_of_subtraction(m: Machine, d: Decoded)
    requires
        d.mnemonic == "Cmp"@,
    ensures
        ({
            let o = exec_instr(m, d);
            let a = op_value(m, d, 0);
            let b = op_value(m, d, 1);
            &&& o.m.flags.cf == (a < b)
            &&& o.m.flags.zf == (a == b)
            &&& o.m.flags.sf == ((a - b) % 0x1_0000_0000_0000_0000 >= 0x8000_0000_0000_0000)
            &&& o.m.flags.of == !(-0x8000_0000_0000_0000 <= signed64(a) - signed64(b) < 0x8000_0000_0000_0000)
            &&& o.m.flags.pf == m.flags.pf && o.m.flags.af == m.flags.af && o.m.flags.df == m.flags.df
            &&& o.m.regs == m.regs
            &&& o.m.mem == m.mem
            &&& o.r == Ok::<u64, Seq<char>>(next_ip(d))
        }),
{
    lemma_compare_selected(m, d);
    let a = op_value(m, d, 0);
    let b = op_value(m, d, 1);
    let r = wsub(a, b);
    assert(r as int == (a - b) % 0x1_0000_0000_0000_0000);
    assert((((a ^ b) & (a ^ r) & 0x8000_0000_0000_0000u64) != 0) == (
        (a >= 0x8000_0000_0000_0000u64) != (b >= 0x8000_0000_0000_0000u64)
        && (r >= 0x8000_0000_0000_0000u64) != (a >= 0x8000_0000_0000_0000u64))) by (bit_vector);
}


proof fn lemma_add_sub_selected(m: Machine, d: Decoded)
    ensures
        d.mnemonic == "Add"@ ==> exec_instr(m, d) == sem_add(m, d),
        d.mnemonic == "Sub"@ ==> exec_instr(m, d) == sem_sub(m, d),
{
    reveal(exec_instr);
    reveal_strlit("Add");
    reveal_strlit("Sub");
    reveal_strlit("Mov");
    reveal_strlit("Lea");
    reveal_strlit("Xor");
    reveal_strlit("Adc");
    reveal_strlit("Sbb");
    reveal_strlit("Xchg");
    reveal_strlit("Bswap");
    reveal_strlit("Clc");
    reveal_strlit("Stc");
    reveal_strlit("Cmc");
    reveal_strlit("Cld");
    reveal_strlit("Std");
    let a = "Add"@;
    let b = "Sub"@;
    assert(a[0] != "Mov"@[0] && b[0] != "Mov"@[0]);
    assert(a[0] != "Lea"@[0] && b[0] != "Lea"@[0]);
    assert(a[0] != "Xor"@[0] && b[0] != "Xor"@[0]);
    assert(a[2] != "Adc"@[2] && b[0] != "Adc"@[0]);
    assert(a[0] != "Sbb"@[0] && b[1] != "Sbb"@[1]);
    assert(a.len() != "Xchg"@.len() && b.len() != "Xchg"@.len());
    assert(a.len() != "Bswap"@.len() && b.len() != "Bswap"@.len());
    assert(a[0] != "Clc"@[0] && b[0] != "Clc"@[0]);
    assert(a[0] != "Stc"@[0] && b[1] != "Stc"@[1]);
    assert(a[0] != "Cmc"@[0] && b[0] != "Cmc"@[0]);
    assert(a[0] != "Cld"@[0] && b[0] != "Cld"@[0]);
    assert(a[0] != "Std"@[0] && b[1] != "Std"@[1]);
    assert(b[0] != a[0]);
}

/// `add a, b`, when it completes, sets the flags of the sum `a + b`: carry
/// when it exceeds 64 bits, zero and sign from the sum modulo 2^64, and
/// overflow when the sum of the signed readings leaves the signed range.
pub proof fn law_add_flags_of_sum(m: Machine, d: Decoded)
    requires
        d.mnemonic == "Add"@,
    ensures
        ({
            let o = exec_instr(m, d);
            let a = op_value(m, d, 0);
            let b = op_value(m, d, 1);
            o.r is Ok ==> {
                &&& o.m.flags.cf == (a + b >= 0x1_0000_0000_0000_0000)
                &&& o.m.flags.zf == ((a + b) % 0x1_0000_0000_0000_0000 == 0)
                &&& o.m.flags.sf == ((a + b) % 0x1_0000_0000_0000_0000 >= 0x8000_0000_0000_0000)
                &&& o.m.flags.of == !(-0x8000_0000_0000_0000 <= signed64(a) + signed64(b) < 0x8000_0000_0000_0000)
            }
        }),
{
    lemma_add_sub_selected(m, d);
    let a = op_value(m, d, 0);
    let b = op_value(m, d, 1);
    let r = wadd(a, b);
    assert(r as int == (a + b) % 0x1_0000_0000_0000_0000);
    assert((((a ^ r) & (b ^ r) & 0x8000_0000_0000_0000u64) != 0) == (
        (a >= 0x8000_0000_0000_0000u64) == (b >= 0x8000_0000_0000_0000u64)
        && (r >= 0x8000_0000_0000_0000u64) != (a >= 0x8000_0000_0000_0000u64))) by (bit_vector);
}

/// `sub a, b`, when it completes, sets the same flags `cmp a, b` sets: those
/// of the difference `a - b`.
pub proof fn law_sub_flags_of_difference(m: Machine, d: Decoded)
    requires
        d.mnemonic == "Sub"@,
    ensures
        ({
            let o = exec_instr(m, d);
            let a = op_value(m, d, 0);
            let b = op_value(m, d, 1);
            o.r is Ok ==> {
                &&& o.m.flags.cf == (a < b)
                &&& o.m.flags.zf == (a == b)
                &&& o.m.flags.sf == ((a - b) % 0x1_0000_0000_0000_0000 >= 0x8000_0000_0000_0000)
                &&& o.m.flags.of == !(-0x8000_0000_0000_0000 <= signed64(a) - signed64(b) < 0x8000_0000_0000_0000)
            }
        }),
{
    lemma_add_sub_selected(m, d);
    let a = op_value(m, d, 0);
    let b = op_value(m, d, 1);
    let r = wsub(a, b);
    assert(r as int == (a - b) % 0x1_0000_0000_0000_0000);
    assert((((a ^ b) & (a ^ r) & 0x8000_0000_0000_0000u64) != 0) == (
        (a >= 0x8000_0000_0000_0000u64) != (b >= 0x8000_0000_0000_0000u64)
        && (r >= 0x8000_0000_0000_0000u64) != (a >= 0x8000_0000_0000_0000u64))) by (bit_vector);
}


proof fn lemma_test_jump_selected(m: Machine, d: Decoded)
    ensures
        d.mnemonic == "Test"@ ==> exec_instr(m, d) == sem_test(m, d),
        d.mnemonic == "Jmp"@ ==> exec_instr(m, d) == sem_jump(m, d, true),
        d.mnemonic == "Je"@ ==> exec_instr(m, d) == sem_jump(m, d, m.flags.zf),
        d.mnemonic == "Jne"@ ==> exec_instr(m, d) == sem_jump(m, d, !m.flags.zf),
{
    reveal(exec_instr);
    reveal_strlit("Mov");
    reveal_strlit("Lea");
    reveal_strlit("Xor");
    reveal_strlit("Adc");
    reveal_strlit("Sbb");
    reveal_strlit("Xchg");
    reveal_strlit("Bswap");
    reveal_strlit("Clc");
    reveal_strlit("Stc");
    reveal_strlit("Cmc");
    reveal_strlit("Cld");
    reveal_strlit("Std");
    reveal_strlit("Add");
    reveal_strlit("Sub");
    reveal_strlit("Imul");
    reveal_strlit("Mul");
    reveal_strlit("Idiv");
    reveal_strlit("Div");
    reveal_strlit("Cqo");
    reveal_strlit("Cdq");
    reveal_strlit("Neg");
    reveal_strlit("Inc");
    reveal_strlit("Dec");
    reveal_strlit("Cmp");
    reveal_strlit("Test");
    reveal_strlit("Push");
    reveal_strlit("Pop");
    reveal_strlit("Jmp");
    reveal_strlit("Je");
    reveal_strlit("Jne");
    assert("Test"@.len() != "Mov"@.len());
    assert("Test"@.len() != "Lea"@.len());
    assert("Test"@.len() != "Xor"@.len());
    assert("Test"@.len() != "Adc"@.len());
    assert("Test"@.len() != "Sbb"@.len());
    assert("Test"@[0] != "Xchg"@[0]);
    assert("Test"@.len() != "Bswap"@.len());
    assert("Test"@.len() != "Clc"@.len());
    assert("Test"@.len() != "Stc"@.len());
    assert("Test"@.len() != "Cmc"@.len());
    assert("Test"@.len() != "Cld"@.len());
    assert("Test"@.len() != "Std"@.len());
    assert("Test"@.len() != "Add"@.len());
    assert("Test"@.len() != "Sub"@.len());
    assert("Test"@[0] != "Imul"@[0]);
    assert("Test"@.len() != "Mul"@.len());
    assert("Test"@[0] != "Idiv"@[0]);
    assert("Test"@.len() != "Div"@.len());
    assert("Test"@.len() != "Cqo"@.len());
    assert("Test"@.len() != "Cdq"@.len());
    assert("Test"@.len() != "Neg"@.len());
    assert("Test"@.len() != "Inc"@.len());
    assert("Test"@.len() != "Dec"@.len());
    assert("Test"@.len() != "Cmp"@.len());
    assert("Jmp"@[0] != "Mov"@[0]);
    assert("Je"@.len() != "Mov"@.len());
    assert("Jne"@[0] != "Mov"@[0]);
    assert("Jmp"@[0] != "Lea"@[0]);
    assert("Je"@.len() != "Lea"@.len());
    assert("Jne"@[0] != "Lea"@[0]);
    assert("Jmp"@[0] != "Xor"@[0]);
    assert("Je"@.len() != "Xor"@.len());
    assert("Jne"@[0] != "Xor"@[0]);
    assert("Jmp"@[0] != "Adc"@[0]);
    assert("Je"@.len() != "Adc"@.len());
    assert("Jne"@[0] != "Adc"@[0]);
    assert("Jmp"@[0] != "Sbb"@[0]);
    assert("Je"@.len() != "Sbb"@.len());
    assert("Jne"@[0] != "Sbb"@[0]);
    assert("Jmp"@.len() != "Xchg"@.len());
    assert("Je"@.len() != "Xchg"@.len());
    assert("Jne"@.len() != "Xchg"@.len());
    assert("Jmp"@.len() != "Bswap"@.len());
    assert("Je"@.len() != "Bswap"@.len());
    assert("Jne"@.len() != "Bswap"@.len());
    assert("Jmp"@[0] != "Clc"@[0]);
    assert("Je"@.len() != "Clc"@.len());
    assert("Jne"@[0] != "Clc"@[0]);
    assert("Jmp"@[0] != "Stc"@[0]);
    assert("Je"@.len() != "Stc"@.len());
    assert("Jne"@[0] != "Stc"@[0]);
    assert("Jmp"@[0] != "Cmc"@[0]);
    assert("Je"@.len() != "Cmc"@.len());
    assert("Jne"@[0] != "Cmc"@[0]);
    assert("Jmp"@[0] != "Cld"@[0]);
    assert("Je"@.len() != "Cld"@.len());
    assert("Jne"@[0] != "Cld"@[0]);
    assert("Jmp"@[0] != "Std"@[0]);
    assert("Je"@.len() != "Std"@.len());
    assert("Jne"@[0] != "Std"@[0]);
    assert("Jmp"@[0] != "Add"@[0]);
    assert("Je"@.len() != "Add"@.len());
    assert("Jne"@[0] != "Add"@[0]);
    assert("Jmp"@[0] != "Sub"@[0]);
    assert("Je"@.len() != "Sub"@.len());
    assert("Jne"@[0] != "Sub"@[0]);
    assert("Jmp"@.len() != "Imul"@.len());
    assert("Je"@.len() != "Imul"@.len());
    assert("Jne"@.len() != "Imul"@.len());
    assert("Jmp"@[0] != "Mul"@[0]);
    assert("Je"@.len() != "Mul"@.len());
    assert("Jne"@[0] != "Mul"@[0]);
    assert("Jmp"@.len() != "Idiv"@.len());
    assert("Je"@.len() != "Idiv"@.len());
    assert("Jne"@.len() != "Idiv"@.len());
    assert("Jmp"@[0] != "Div"@[0]);
    assert("Je"@.len() != "Div"@.len());
    assert("Jne"@[0] != "Div"@[0]);
    assert("Jmp"@[0] != "Cqo"@[0]);
    assert("Je"@.len() != "Cqo"@.len());
    assert("Jne"@[0] != "Cqo"@[0]);
    assert("Jmp"@[0] != "Cdq"@[0]);
    assert("Je"@.len() != "Cdq"@.len());
    assert("Jne"@[0] != "Cdq"@[0]);
    assert("Jmp"@[0] != "Neg"@[0]);
    assert("Je"@.len() != "Neg"@.len());
    assert("Jne"@[0] != "Neg"@[0]);
    assert("Jmp"@[0] != "Inc"@[0]);
    assert("Je"@.len() != "Inc"@.len());
    assert("Jne"@[0] != "Inc"@[0]);
    assert("Jmp"@[0] != "Dec"@[0]);
    assert("Je"@.len() != "Dec"@.len());
    assert("Jne"@[0] != "Dec"@[0]);
    assert("Jmp"@[0] != "Cmp"@[0]);
    assert("Je"@.len() != "Cmp"@.len());
    assert("Jne"@[0] != "Cmp"@[0]);
    assert("Jmp"@.len() != "Test"@.len());
    assert("Je"@.len() != "Test"@.len());
    assert("Jne"@.len() != "Test"@.len());
    assert("Jmp"@.len() != "Push"@.len());
    assert("Je"@.len() != "Push"@.len());
    assert("Jne"@.len() != "Push"@.len());
    assert("Jmp"@[0] != "Pop"@[0]);
    assert("Je"@.len() != "Pop"@.len());
    assert("Jne"@[0] != "Pop"@[0]);
    assert("Je"@.len() != "Jmp"@.len());
    assert("Jne"@[1] != "Jmp"@[1]);
    assert("Jne"@.len() != "Je"@.len());
}

/// `test a, b` sets the flags of `a & b` (zero, sign; carry and overflow
/// clear) and changes no register or memory.
pub proof fn law_test_flags_of_and(m: Machine, d: Decoded)
    requires
        d.mnemonic == "Test"@,
    ensures
        ({
            let o = exec_instr(m, d);
            let v = op_value(m, d, 0) & op_value(m, d, 1);
            &&& o.m.flags.zf == (v == 0)
            &&& o.m.flags.sf == (v >= 0x8000_0000_0000_0000)
            &&& !o.m.flags.cf && !o.m.flags.of
            &&& o.m.regs == m.regs
            &&& o.m.mem == m.mem
            &&& o.r == Ok::<u64, Seq<char>>(next_ip(d))
        }),
{
    lemma_test_jump_selected(m, d);
}

/// A near jump goes to its target: `jmp` always, `je` exactly when the zero
/// flag is set, `jne` exactly when it is clear; otherwise execution goes on
/// with the next instruction. No register, flag or memory changes.
pub proof fn law_jumps_follow_zero_flag(m: Machine, d: Decoded)
    requires
        d.mnemonic == "Jmp"@ || d.mnemonic == "Je"@ || d.mnemonic == "Jne"@,
        d.kinds[0] == OperandKind::NearBranch64,
    ensures
        ({
            let o = exec_instr(m, d);
            let taken = d.mnemonic == "Jmp"@ || (d.mnemonic == "Je"@ && m.flags.zf) || (d.mnemonic == "Jne"@ && !m.flags.zf);
            &&& o.m == m
            &&& o.r == Ok::<u64, Seq<char>>(if taken { d.near_branch } else { next_ip(d) })
        }),
{
    lemma_test_jump_selected(m, d);
}

} // verus!
