//! The knowledge the graph starts with: flags, calling conventions,
//! instructions, optimization idioms and system calls.
use vstd::prelude::*;
use crate::knowledge::graph::{
    index_categories, index_mnemonics, index_names, nodes_view, texts_view, CallingConventionNode, ConventionView, FlagNode,
    FlagView, IdiomNode, IdiomView, InstructionNode, InstructionView, KnowledgeGraph, KnowledgeNode, KnowledgeView,
    SyscallNode, SyscallView,
};
use crate::text::string_from;
use crate::types::{Arch, CallingConvention};

verus! {

pub open spec fn flag_views() -> Seq<KnowledgeView> {
    seq![
        KnowledgeView::Flag(FlagView {
            name: "CF"@,
            full_name: "Carry Flag"@,
            description: "Set on unsigned overflow/carry out or borrow during subtraction."@,
            condition_codes_testing: seq!["jb"@, "jbe"@, "jae"@, "ja"@, "cmovb"@],
        }),
        KnowledgeView::Flag(FlagView {
            name: "ZF"@,
            full_name: "Zero Flag"@,
            description: "Set when result of arithmetic/logical operation is exactly zero."@,
            condition_codes_testing: seq!["je"@, "jne"@, "jz"@, "jnz"@, "cmove"@],
        }),
        KnowledgeView::Flag(FlagView {
            name: "SF"@,
            full_name: "Sign Flag"@,
            description: "Set equal to most significant bit of the result (negative in two's complement)."@,
            condition_codes_testing: seq!["js"@, "jns"@, "jl"@, "jge"@],
        }),
        KnowledgeView::Flag(FlagView {
            name: "OF"@,
            full_name: "Overflow Flag"@,
            description: "Set when signed two's complement result exceeds destination capacity."@,
            condition_codes_testing: seq!["jo"@, "jno"@, "jl"@, "jg"@],
        }),
        KnowledgeView::Flag(FlagView {
            name: "DF"@,
            full_name: "Direction Flag"@,
            description: "Controls string instruction auto-increment (0, cld) or auto-decrement (1, std)."@,
            condition_codes_testing: seq!["cld"@, "std"@],
        }),
        KnowledgeView::Flag(FlagView {
            name: "PF"@,
            full_name: "Parity Flag"@,
            description: "Set if least significant byte contains an even number of 1 bits."@,
            condition_codes_testing: seq!["jp"@, "jnp"@],
        }),
    ]
}

pub open spec fn convention_views() -> Seq<KnowledgeView> {
    seq![
        KnowledgeView::CallingConvention(ConventionView {
            id: CallingConvention::SystemV_AMD64,
            name: "System V AMD64 ABI (Linux, macOS, BSD)"@,
            arch: Arch::X86_64,
            arg_registers: seq!["rdi"@, "rsi"@, "rdx"@, "rcx"@, "r8"@, "r9"@],
            float_arg_registers: seq!["xmm0"@, "xmm1"@, "xmm2"@, "xmm3"@, "xmm4"@, "xmm5"@, "xmm6"@, "xmm7"@],
            return_registers: seq!["rax"@, "rdx"@],
            callee_saved_registers: seq!["rbx"@, "rsp"@, "rbp"@, "r12"@, "r13"@, "r14"@, "r15"@],
            caller_saved_registers: seq!["rax"@, "rcx"@, "rdx"@, "rsi"@, "rdi"@, "r8"@, "r9"@, "r10"@, "r11"@],
            stack_alignment_bytes: 16,
            shadow_space_bytes: 0,
            red_zone_bytes: 128,
            rules_and_traps: seq!["Stack MUST be aligned to 16 bytes before the CALL instruction."@, "The 128-byte red zone below RSP can be used by leaf functions without moving RSP."@, "Syscall clobbers RCX (saved RIP) and R11 (saved RFLAGS)."@, "Writing to 32-bit registers (e.g. eax) automatically zero-extends into 64-bit parent (rax)."@],
        }),
        KnowledgeView::CallingConvention(ConventionView {
            id: CallingConvention::Windows_X64,
            name: "Microsoft x64 Calling Convention (Windows)"@,
            arch: Arch::X86_64,
            arg_registers: seq!["rcx"@, "rdx"@, "r8"@, "r9"@],
            float_arg_registers: seq!["xmm0"@, "xmm1"@, "xmm2"@, "xmm3"@],
            return_registers: seq!["rax"@],
            callee_saved_registers: seq!["rbx"@, "rbp"@, "rdi"@, "rsi"@, "rsp"@, "r12"@, "r13"@, "r14"@, "r15"@, "xmm6"@, "xmm7"@],
            caller_saved_registers: seq!["rax"@, "rcx"@, "rdx"@, "r8"@, "r9"@, "r10"@, "r11"@],
            stack_alignment_bytes: 16,
            shadow_space_bytes: 32,
            red_zone_bytes: 0,
            rules_and_traps: seq!["CALLER MUST allocate 32 bytes of 'shadow space' (home space) on stack before every CALL, even for 0-parameter functions!"@, "Stack MUST be 16-byte aligned before CALL."@, "RSI and RDI are CALLEE-SAVED on Windows, unlike System V where they are caller-saved!"@, "No Red Zone exists on Windows. Accessing memory below RSP will cause corruption if interrupts or APCs fire."@],
        }),
        KnowledgeView::CallingConvention(ConventionView {
            id: CallingConvention::Arm64_AAPCS,
            name: "ARM64 AAPCS (AArch64)"@,
            arch: Arch::Arm64,
            arg_registers: seq!["x0"@, "x1"@, "x2"@, "x3"@, "x4"@, "x5"@, "x6"@, "x7"@],
            float_arg_registers: seq!["v0"@, "v1"@, "v2"@, "v3"@, "v4"@, "v5"@, "v6"@, "v7"@],
            return_registers: seq!["x0"@, "x1"@],
            callee_saved_registers: seq!["x19"@, "x20"@, "x21"@, "x22"@, "x23"@, "x24"@, "x25"@, "x26"@, "x27"@, "x28"@, "x29"@, "x30"@],
            caller_saved_registers: seq!["x9"@, "x10"@, "x11"@, "x12"@, "x13"@, "x14"@, "x15"@],
            stack_alignment_bytes: 16,
            shadow_space_bytes: 0,
            red_zone_bytes: 0,
            rules_and_traps: seq!["Stack pointer SP MUST be 16-byte aligned whenever used as a memory base."@, "x29 is Frame Pointer (FP); x30 is Link Register (LR)."@],
        }),
        KnowledgeView::CallingConvention(ConventionView {
            id: CallingConvention::Riscv_LP64,
            name: "RISC-V Standard Calling Convention (LP64/LP64D)"@,
            arch: Arch::Riscv64,
            arg_registers: seq!["a0"@, "a1"@, "a2"@, "a3"@, "a4"@, "a5"@, "a6"@, "a7"@],
            float_arg_registers: seq!["fa0"@, "fa1"@, "fa2"@, "fa3"@, "fa4"@, "fa5"@, "fa6"@, "fa7"@],
            return_registers: seq!["a0"@, "a1"@],
            callee_saved_registers: seq!["s0"@, "s1"@, "s2"@, "s3"@, "s4"@, "s5"@, "s6"@, "s7"@, "s8"@, "s9"@, "s10"@, "s11"@, "sp"@],
            caller_saved_registers: seq!["t0"@, "t1"@, "t2"@, "t3"@, "t4"@, "t5"@, "t6"@, "ra"@],
            stack_alignment_bytes: 16,
            shadow_space_bytes: 0,
            red_zone_bytes: 0,
            rules_and_traps: seq!["Stack pointer SP MUST remain 16-byte aligned at all times."@, "Non-leaf functions MUST save return address 'ra' (x1) before calling 'jal'/'call'."@, "Division by zero does NOT cause an exception in RISC-V: 'div' returns -1, 'rem' returns dividend."@],
        }),
    ]
}

pub open spec fn instruction_views() -> Seq<KnowledgeView> {
    seq![
        KnowledgeView::Instruction(InstructionView {
            mnemonic: "add"@,
            arch: Arch::X86_64,
            summary: "Integer addition. Adds source to destination with carry/overflow update."@,
            syntax_forms: seq!["add reg, reg"@, "add reg, imm"@, "add reg, [mem]"@],
            flags_read: Seq::empty(),
            flags_written: seq!["OF"@, "SF"@, "ZF"@, "AF"@, "CF"@, "PF"@],
            flags_undefined: Seq::empty(),
            implicit_registers_read: Seq::empty(),
            implicit_registers_written: Seq::empty(),
            latency_centicycles: Some(100u32),
            throughput_centicycles: Some(25u32),
            extension: "Base"@,
            traps_and_pitfalls: seq!["Sets CF on unsigned overflow, OF on signed overflow."@],
        }),
        KnowledgeView::Instruction(InstructionView {
            mnemonic: "sub"@,
            arch: Arch::X86_64,
            summary: "Integer subtraction. Subtracts source from destination."@,
            syntax_forms: seq!["sub reg, reg"@, "sub reg, imm"@, "sub reg, [mem]"@],
            flags_read: Seq::empty(),
            flags_written: seq!["OF"@, "SF"@, "ZF"@, "AF"@, "CF"@, "PF"@],
            flags_undefined: Seq::empty(),
            implicit_registers_read: Seq::empty(),
            implicit_registers_written: Seq::empty(),
            latency_centicycles: Some(100u32),
            throughput_centicycles: Some(25u32),
            extension: "Base"@,
            traps_and_pitfalls: seq!["Sets CF if borrow occurred (dest < src unsigned)."@],
        }),
        KnowledgeView::Instruction(InstructionView {
            mnemonic: "imul"@,
            arch: Arch::X86_64,
            summary: "Signed integer multiplication. Available in 1-operand, 2-operand (imul r, r), and 3-operand (imul r, r, imm) forms."@,
            syntax_forms: seq!["imul reg"@, "imul reg, reg/mem"@, "imul reg, reg/mem, imm"@],
            flags_read: Seq::empty(),
            flags_written: seq!["CF"@, "OF"@],
            flags_undefined: seq!["SF"@, "ZF"@, "AF"@, "PF"@],
            implicit_registers_read: seq!["rax"@],
            implicit_registers_written: seq!["rdx"@, "rax"@],
            latency_centicycles: Some(300u32),
            throughput_centicycles: Some(100u32),
            extension: "Base"@,
            traps_and_pitfalls: seq!["In 2-operand and 3-operand forms, destination MUST be a register!"@, "CF and OF are set if the significant bits of the result exceed destination register width."@],
        }),
        KnowledgeView::Instruction(InstructionView {
            mnemonic: "idiv"@,
            arch: Arch::X86_64,
            summary: "Signed integer divide. Divides RDX:RAX by operand. Quotient returned in RAX, Remainder in RDX."@,
            syntax_forms: seq!["idiv reg/mem"@],
            flags_read: Seq::empty(),
            flags_written: Seq::empty(),
            flags_undefined: seq!["CF"@, "OF"@, "SF"@, "ZF"@, "AF"@, "PF"@],
            implicit_registers_read: seq!["rdx"@, "rax"@],
            implicit_registers_written: seq!["rax (quotient)"@, "rdx (remainder)"@],
            latency_centicycles: Some(1800u32),
            throughput_centicycles: Some(600u32),
            extension: "Base"@,
            traps_and_pitfalls: seq!["MANDATORY: Must execute 'cqo' (or 'cdq') prior to IDIV to sign-extend RAX into RDX:RAX!"@, "CRITICAL TRAP: Triggers #DE (Divide Error Exception) if divisor is 0 or if quotient overflows (e.g. INT64_MIN / -1)."@],
        }),
        KnowledgeView::Instruction(InstructionView {
            mnemonic: "cqo"@,
            arch: Arch::X86_64,
            summary: "Convert Quadword to Octaword. Sign-extends RAX into RDX:RAX for 64-bit IDIV."@,
            syntax_forms: seq!["cqo"@],
            flags_read: Seq::empty(),
            flags_written: Seq::empty(),
            flags_undefined: Seq::empty(),
            implicit_registers_read: seq!["rax"@],
            implicit_registers_written: seq!["rdx"@],
            latency_centicycles: Some(100u32),
            throughput_centicycles: Some(50u32),
            extension: "Base"@,
            traps_and_pitfalls: seq!["Clobbers RDX completely with the sign bit of RAX."@],
        }),
        KnowledgeView::Instruction(InstructionView {
            mnemonic: "neg"@,
            arch: Arch::X86_64,
            summary: "Two's complement negation (dest = 0 - dest)."@,
            syntax_forms: seq!["neg reg"@, "neg [mem]"@],
            flags_read: Seq::empty(),
            flags_written: seq!["CF"@, "OF"@, "SF"@, "ZF"@, "AF"@, "PF"@],
            flags_undefined: Seq::empty(),
            implicit_registers_read: Seq::empty(),
            implicit_registers_written: Seq::empty(),
            latency_centicycles: Some(100u32),
            throughput_centicycles: Some(50u32),
            extension: "Base"@,
            traps_and_pitfalls: seq!["CF is set to 0 if operand is 0, and 1 if non-zero."@],
        }),
        KnowledgeView::Instruction(InstructionView {
            mnemonic: "xor"@,
            arch: Arch::X86_64,
            summary: "Bitwise logical Exclusive OR. 'xor reg, reg' is the canonical zero-latency register zeroing idiom."@,
            syntax_forms: seq!["xor reg, reg"@, "xor reg, imm"@, "xor reg, [mem]"@],
            flags_read: Seq::empty(),
            flags_written: seq!["CF"@, "OF"@, "SF"@, "ZF"@, "PF"@],
            flags_undefined: seq!["AF"@],
            implicit_registers_read: Seq::empty(),
            implicit_registers_written: Seq::empty(),
            latency_centicycles: Some(25u32),
            throughput_centicycles: Some(25u32),
            extension: "Base"@,
            traps_and_pitfalls: seq!["Clears CF and OF unconditionally."@, "Writing to 32-bit register e.g. 'xor eax, eax' automatically clears upper 32 bits of RAX and breaks dependency chains."@],
        }),
        KnowledgeView::Instruction(InstructionView {
            mnemonic: "lea"@,
            arch: Arch::X86_64,
            summary: "Load Effective Address. Calculates memory address without accessing memory. Ideal for fast math (base + index*scale + disp)."@,
            syntax_forms: seq!["lea reg, [base + index*scale + disp]"@],
            flags_read: Seq::empty(),
            flags_written: Seq::empty(),
            flags_undefined: Seq::empty(),
            implicit_registers_read: Seq::empty(),
            implicit_registers_written: Seq::empty(),
            latency_centicycles: Some(100u32),
            throughput_centicycles: Some(50u32),
            extension: "Base"@,
            traps_and_pitfalls: seq!["Does NOT modify any CPU flags! Ideal for arithmetic where flags must be preserved."@, "Use RIP-relative addressing 'lea rax, [rip + symbol]' for position-independent code (PIC)."@],
        }),
        KnowledgeView::Instruction(InstructionView {
            mnemonic: "inc"@,
            arch: Arch::X86_64,
            summary: "Increment register or memory by 1."@,
            syntax_forms: seq!["inc reg"@, "inc byte/dword/qword [mem]"@],
            flags_read: Seq::empty(),
            flags_written: seq!["OF"@, "SF"@, "ZF"@, "AF"@, "PF"@],
            flags_undefined: Seq::empty(),
            implicit_registers_read: Seq::empty(),
            implicit_registers_written: Seq::empty(),
            latency_centicycles: Some(100u32),
            throughput_centicycles: Some(50u32),
            extension: "Base"@,
            traps_and_pitfalls: seq!["CRITICAL: INC does NOT modify CF (Carry Flag)! Prefer 'add reg, 1' if flags are needed."@],
        }),
        KnowledgeView::Instruction(InstructionView {
            mnemonic: "syscall"@,
            arch: Arch::X86_64,
            summary: "Fast system call into the OS kernel."@,
            syntax_forms: seq!["syscall"@],
            flags_read: Seq::empty(),
            flags_written: Seq::empty(),
            flags_undefined: Seq::empty(),
            implicit_registers_read: seq!["rax"@, "rdi"@, "rsi"@, "rdx"@, "r10"@, "r8"@, "r9"@],
            implicit_registers_written: seq!["rcx"@, "r11"@, "rax"@],
            latency_centicycles: None,
            throughput_centicycles: None,
            extension: "Base"@,
            traps_and_pitfalls: seq!["DESTRUCTIVE: Hardware SYSCALL always clobbers RCX (stores RIP) and R11 (stores RFLAGS)."@, "In Linux x86_64, the 4th argument is in R10, NOT RCX."@],
        }),
        KnowledgeView::Instruction(InstructionView {
            mnemonic: "vzeroupper"@,
            arch: Arch::X86_64,
            summary: "Zero upper 128-bits of all YMM/ZMM registers. Avoids AVX-to-SSE transition penalties."@,
            syntax_forms: seq!["vzeroupper"@],
            flags_read: Seq::empty(),
            flags_written: Seq::empty(),
            flags_undefined: Seq::empty(),
            implicit_registers_read: Seq::empty(),
            implicit_registers_written: seq!["ymm0-ymm15"@],
            latency_centicycles: Some(400u32),
            throughput_centicycles: Some(400u32),
            extension: "AVX"@,
            traps_and_pitfalls: seq!["MANDATORY: Must be executed before leaving any AVX function (before RET) or calling legacy SSE functions."@],
        }),
    ]
}

pub open spec fn idiom_views() -> Seq<KnowledgeView> {
    seq![
        KnowledgeView::Idiom(IdiomView {
            id: "branchless_abs_x86_64"@,
            name: "Branchless Absolute Value (x86_64)"@,
            category: "branchless"@,
            arch: Arch::X86_64,
            description: "Computes |x| for signed 64-bit integer in RAX without conditional jumps."@,
            assembly_intel: "mov rdx, rax\nsar rdx, 63\nxor rax, rdx\nsub rax, rdx"@,
            assembly_att: Some("movq %rax, %rdx\nsarq $63, %rdx\nxorq %rdx, %rax\nsubq %rdx, %rax"@),
            assembly_arm64: Some("cmp x0, #0\ncsneg x0, x0, x0, mi"@),
            why_it_matters: "Completely eliminates branch misprediction penalties (15-20 cycles on modern CPUs)."@,
            latency_cycles: "3 cycles"@,
        }),
        KnowledgeView::Idiom(IdiomView {
            id: "branchless_min_max_x86_64"@,
            name: "Branchless Min / Max using CMOVcc"@,
            category: "branchless"@,
            arch: Arch::X86_64,
            description: "Selects min or max of RAX and RBX without branching."@,
            assembly_intel: "cmp rax, rbx\ncmovg rax, rbx ; for min (signed)\n; or cmovl rax, rbx ; for max"@,
            assembly_att: Some("cmpq %rbx, %rax\ncmovg %rbx, %rax"@),
            assembly_arm64: Some("cmp x0, x1\ncsel x0, x0, x1, le ; min"@),
            why_it_matters: "Single CMP followed by single CMOVcc eliminates branch predictor thrashing."@,
            latency_cycles: "2 cycles"@,
        }),
        KnowledgeView::Idiom(IdiomView {
            id: "zero_latency_register_clear"@,
            name: "Zero-Latency Register Clearing"@,
            category: "zeroing"@,
            arch: Arch::X86_64,
            description: "Clears a register to 0 with zero execution port latency on modern x86 cores."@,
            assembly_intel: "xor eax, eax ; Note: 32-bit register clears 64-bit RAX!"@,
            assembly_att: Some("xorl %eax, %eax"@),
            assembly_arm64: Some("mov x0, xzr"@),
            why_it_matters: "Recognized by CPU register renaming unit as a zero-latency idiom."@,
            latency_cycles: "0 cycles (handled at rename stage)"@,
        }),
        KnowledgeView::Idiom(IdiomView {
            id: "checked_imul_overflow"@,
            name: "Checked Signed Multiplication with Overflow Detection"@,
            category: "checked_arithmetic"@,
            arch: Arch::X86_64,
            description: "Detects 64-bit integer overflow immediately upon multiplication using the CPU Overflow Flag (OF)."@,
            assembly_intel: "imul rax, rdx\njo .overflow_handler ; Jump if product does not fit in 64 bits"@,
            assembly_att: Some("imulq %rdx, %rax\njo .overflow_handler"@),
            assembly_arm64: Some("smull x2, w0, w1\n// Or test high half in ARM64"@),
            why_it_matters: "Prevents silent integer wraparound corruptions that produce wild mathematical errors."@,
            latency_cycles: "3 cycles + 1 branch cycle"@,
        }),
        KnowledgeView::Idiom(IdiomView {
            id: "full_128bit_multiplication"@,
            name: "Full 128-Bit Integer Multiplication (No Truncation)"@,
            category: "multi_precision"@,
            arch: Arch::X86_64,
            description: "Multiplies two 64-bit integers and captures the entire 128-bit product in RDX:RAX without any truncation."@,
            assembly_intel: "mov rax, rcx\nmul rdx       ; RDX:RAX = RCX * RDX (RDX = upper 64 bits, RAX = lower 64 bits)"@,
            assembly_att: Some("movq %rcx, %rax\nmulq %rdx"@),
            assembly_arm64: Some("mul x2, x0, x1\numulh x3, x0, x1 ; x3 = high 64 bits, x2 = low 64 bits"@),
            why_it_matters: "Permits arbitrary-precision bignum arithmetic and eliminates overflow completely for 64-bit inputs."@,
            latency_cycles: "4 cycles"@,
        }),
        KnowledgeView::Idiom(IdiomView {
            id: "decimal_fraction_expansion"@,
            name: "Decimal Fraction Expansion from Division Remainder"@,
            category: "formatting"@,
            arch: Arch::X86_64,
            description: "Expands integer division remainder into exact decimal digits (e.g. 1/3 -> 0.333333, 9/7 -> 1.285714)."@,
            assembly_intel: "; After idiv r10 (RAX = quotient, RDX = remainder):\n; Loop to extract decimal digits:\n.digit_loop:\nmov rax, rdx\nimul rax, 10\ncqo\nidiv r10       ; RAX = next decimal digit, RDX = new remainder\n// append RAX + '0' to output buffer\ntest rdx, rdx\njnz .digit_loop"@,
            assembly_att: None,
            assembly_arm64: None,
            why_it_matters: "Turns basic integer truncation (like 1/3 = 0) into precise decimal output without floating point errors."@,
            latency_cycles: "~18 cycles per decimal digit"@,
        }),
        KnowledgeView::Idiom(IdiomView {
            id: "sse2_double_precision_division"@,
            name: "IEEE 754 Double-Precision Float Division (SSE2)"@,
            category: "floating_point"@,
            arch: Arch::X86_64,
            description: "Performs true 64-bit floating-point division using hardware vector registers XMM0/XMM1."@,
            assembly_intel: "cvtsi2sd xmm0, rcx ; Convert int64 dividend to double\ncvtsi2sd xmm1, rdx ; Convert int64 divisor to double\ndivsd xmm0, xmm1   ; XMM0 = dividend / divisor"@,
            assembly_att: Some("cvtsi2sdq %rcx, %xmm0\ncvtsi2sdq %rdx, %xmm1\ndivsd %xmm1, %xmm0"@),
            assembly_arm64: Some("scvtf d0, x0\nscvtf d1, x1\nfdiv d0, d0, d1"@),
            why_it_matters: "Delivers IEEE-754 compliant double-precision floats with zero truncation."@,
            latency_cycles: "~14 cycles"@,
        }),
        KnowledgeView::Idiom(IdiomView {
            id: "arm64_checked_division_remainder"@,
            name: "ARM64 Safe Division with Remainder Computation"@,
            category: "arithmetic"@,
            arch: Arch::Arm64,
            description: "Guards against division by zero (which returns 0 silently in AArch64) and computes the remainder using MSUB."@,
            assembly_intel: "; x86 equivalent: test rdx, rdx; jz .err; idiv rdx"@,
            assembly_att: None,
            assembly_arm64: Some("cbz x1, .div_zero_error  // Guard division by zero\nsdiv x2, x0, x1           // x2 = quotient (x0 / x1)\nmsub x3, x2, x1, x0       // x3 = remainder: x0 - (x2 * x1)"@),
            why_it_matters: "Prevents silent division-by-zero logic errors and recovers the remainder without needing extra division steps."@,
            latency_cycles: "4 cycles"@,
        }),
        KnowledgeView::Idiom(IdiomView {
            id: "riscv_checked_division_remainder"@,
            name: "RISC-V Safe Division and Remainder"@,
            category: "arithmetic"@,
            arch: Arch::Riscv64,
            description: "Guards against division by zero (which returns -1 silently in RISC-V) and executes div and rem."@,
            assembly_intel: "; x86 equivalent: idiv"@,
            assembly_att: None,
            assembly_arm64: None,
            why_it_matters: "RISC-V hardware specifies no hardware exception on divide-by-zero, requiring an explicit branch to prevent silent corrupted state."@,
            latency_cycles: "5-32 cycles (M extension)"@,
        }),
        KnowledgeView::Idiom(IdiomView {
            id: "safe_signed_negation"@,
            name: "Safe Signed Negation Handling INT_MIN"@,
            category: "checked_arithmetic"@,
            arch: Arch::X86_64,
            description: "Safely negates a signed integer and branches on overflow if the value is INT64_MIN (-2^63)."@,
            assembly_intel: "neg rax\njo .overflow_handler ; Triggered if RAX was 0x8000000000000000"@,
            assembly_att: Some("negq %rax\njo .overflow_handler"@),
            assembly_arm64: Some("negs x0, x0\nb.vs .overflow_handler"@),
            why_it_matters: "In two's complement, -INT_MIN cannot be represented as a positive signed number and wraps back to INT_MIN."@,
            latency_cycles: "1 cycle"@,
        }),
        KnowledgeView::Idiom(IdiomView {
            id: "multi_precision_adc_chain"@,
            name: "Multi-Precision 128-Bit Addition (ADC Chain)"@,
            category: "multi_precision"@,
            arch: Arch::X86_64,
            description: "Chains ADD and ADC to add 128-bit integers across two 64-bit register pairs."@,
            assembly_intel: "add rax, rcx ; add low 64 bits (sets CF)\nadc rdx, r8  ; add high 64 bits with CF carry"@,
            assembly_att: Some("addq %rcx, %rax\nadcq %r8, %rdx"@),
            assembly_arm64: Some("adds x0, x0, x2\nadc x1, x1, x3"@),
            why_it_matters: "Forms the fundamental building block of arbitrary-precision bignum arithmetic and cryptographic primitives."@,
            latency_cycles: "2 cycles"@,
        }),
        KnowledgeView::Idiom(IdiomView {
            id: "windows_x64_callee_saved_prologue"@,
            name: "Standard Windows x64 ABI Non-Volatile Prologue & Epilogue"@,
            category: "calling_convention"@,
            arch: Arch::X86_64,
            description: "Preserves all required callee-saved registers (RBX, RSI, RDI, R12-R15) and allocates shadow space with 16-byte alignment."@,
            assembly_intel: "push rbx\npush rsi\npush rdi\npush r12\npush r13\npush r14\npush r15\nsub rsp, 48 ; 7 pushes (56) + 8 ret = 64 (0 mod 16). 64 + 48 = 112 (multiple of 16)\n; ... body ...\nadd rsp, 48\npop r15\npop r14\npop r13\npop r12\npop rdi\npop rsi\npop rbx\nret"@,
            assembly_att: None,
            assembly_arm64: None,
            why_it_matters: "Failing to preserve RSI/RDI on Windows x64 corrupts the caller's state, leading to intermittent and catastrophic crashes."@,
            latency_cycles: "Minimal push/pop overhead"@,
        }),
    ]
}

pub open spec fn syscall_views() -> Seq<KnowledgeView> {
    seq![
        KnowledgeView::Syscall(SyscallView {
            id: 0,
            name: "sys_read"@,
            arch: Arch::X86_64,
            os: "linux"@,
            signature: "ssize_t read(int fd, void *buf, size_t count)"@,
            arg_registers: seq!["rdi (fd)"@, "rsi (buf)"@, "rdx (count)"@],
            return_register: "rax (bytes read or negative error code)"@,
            clobbered_registers: seq!["rcx"@, "r11"@],
        }),
        KnowledgeView::Syscall(SyscallView {
            id: 1,
            name: "sys_write"@,
            arch: Arch::X86_64,
            os: "linux"@,
            signature: "ssize_t write(int fd, const void *buf, size_t count)"@,
            arg_registers: seq!["rdi (fd)"@, "rsi (buf)"@, "rdx (count)"@],
            return_register: "rax (bytes written or negative error code)"@,
            clobbered_registers: seq!["rcx"@, "r11"@],
        }),
        KnowledgeView::Syscall(SyscallView {
            id: 60,
            name: "sys_exit"@,
            arch: Arch::X86_64,
            os: "linux"@,
            signature: "void exit(int status)"@,
            arg_registers: seq!["rdi (status)"@],
            return_register: "Does not return"@,
            clobbered_registers: seq!["rcx"@, "r11"@],
        }),
    ]
}

/// The flags.
fn baseline_flags() -> (v: Vec<KnowledgeNode>)
    ensures
        nodes_view(v@) == flag_views(),
{
    let mut v: Vec<KnowledgeNode> = Vec::new();
    v.push(KnowledgeNode::Flag(FlagNode {
        name: string_from("CF"),
        full_name: string_from("Carry Flag"),
        description: string_from("Set on unsigned overflow/carry out or borrow during subtraction."),
        condition_codes_testing: {
            let mut t: Vec<String> = Vec::new();
            t.push(string_from("jb"));
            t.push(string_from("jbe"));
            t.push(string_from("jae"));
            t.push(string_from("ja"));
            t.push(string_from("cmovb"));
            proof {
                assert(texts_view(t@) =~= seq!["jb"@, "jbe"@, "jae"@, "ja"@, "cmovb"@]);
            }
            t
        },
    }));
    v.push(KnowledgeNode::Flag(FlagNode {
        name: string_from("ZF"),
        full_name: string_from("Zero Flag"),
        description: string_from("Set when result of arithmetic/logical operation is exactly zero."),
        condition_codes_testing: {
            let mut t: Vec<String> = Vec::new();
            t.push(string_from("je"));
            t.push(string_from("jne"));
            t.push(string_from("jz"));
            t.push(string_from("jnz"));
            t.push(string_from("cmove"));
            proof {
                assert(texts_view(t@) =~= seq!["je"@, "jne"@, "jz"@, "jnz"@, "cmove"@]);
            }
            t
        },
    }));
    v.push(KnowledgeNode::Flag(FlagNode {
        name: string_from("SF"),
        full_name: string_from("Sign Flag"),
        description: string_from("Set equal to most significant bit of the result (negative in two's complement)."),
        condition_codes_testing: {
            let mut t: Vec<String> = Vec::new();
            t.push(string_from("js"));
            t.push(string_from("jns"));
            t.push(string_from("jl"));
            t.push(string_from("jge"));
            proof {
                assert(texts_view(t@) =~= seq!["js"@, "jns"@, "jl"@, "jge"@]);
            }
            t
        },
    }));
    v.push(KnowledgeNode::Flag(FlagNode {
        name: string_from("OF"),
        full_name: string_from("Overflow Flag"),
        description: string_from("Set when signed two's complement result exceeds destination capacity."),
        condition_codes_testing: {
            let mut t: Vec<String> = Vec::new();
            t.push(string_from("jo"));
            t.push(string_from("jno"));
            t.push(string_from("jl"));
            t.push(string_from("jg"));
            proof {
                assert(texts_view(t@) =~= seq!["jo"@, "jno"@, "jl"@, "jg"@]);
            }
            t
        },
    }));
    v.push(KnowledgeNode::Flag(FlagNode {
        name: string_from("DF"),
        full_name: string_from("Direction Flag"),
        description: string_from("Controls string instruction auto-increment (0, cld) or auto-decrement (1, std)."),
        condition_codes_testing: {
            let mut t: Vec<String> = Vec::new();
            t.push(string_from("cld"));
            t.push(string_from("std"));
            proof {
                assert(texts_view(t@) =~= seq!["cld"@, "std"@]);
            }
            t
        },
    }));
    v.push(KnowledgeNode::Flag(FlagNode {
        name: string_from("PF"),
        full_name: string_from("Parity Flag"),
        description: string_from("Set if least significant byte contains an even number of 1 bits."),
        condition_codes_testing: {
            let mut t: Vec<String> = Vec::new();
            t.push(string_from("jp"));
            t.push(string_from("jnp"));
            proof {
                assert(texts_view(t@) =~= seq!["jp"@, "jnp"@]);
            }
            t
        },
    }));
    proof {
        assert(nodes_view(v@) =~~= flag_views());
    }
    v
}

/// The calling conventions.
fn baseline_conventions() -> (v: Vec<KnowledgeNode>)
    ensures
        nodes_view(v@) == convention_views(),
{
    let mut v: Vec<KnowledgeNode> = Vec::new();
    v.push(KnowledgeNode::CallingConvention(CallingConventionNode {
        id: CallingConvention::SystemV_AMD64,
        name: string_from("System V AMD64 ABI (Linux, macOS, BSD)"),
        arch: Arch::X86_64,
        arg_registers: {
            let mut t: Vec<String> = Vec::new();
            t.push(string_from("rdi"));
            t.push(string_from("rsi"));
            t.push(string_from("rdx"));
            t.push(string_from("rcx"));
            t.push(string_from("r8"));
            t.push(string_from("r9"));
            proof {
                assert(texts_view(t@) =~= seq!["rdi"@, "rsi"@, "rdx"@, "rcx"@, "r8"@, "r9"@]);
            }
            t
        },
        float_arg_registers: {
            let mut t: Vec<String> = Vec::new();
            t.push(string_from("xmm0"));
            t.push(string_from("xmm1"));
            t.push(string_from("xmm2"));
            t.push(string_from("xmm3"));
            t.push(string_from("xmm4"));
            t.push(string_from("xmm5"));
            t.push(string_from("xmm6"));
            t.push(string_from("xmm7"));
            proof {
                assert(texts_view(t@) =~= seq!["xmm0"@, "xmm1"@, "xmm2"@, "xmm3"@, "xmm4"@, "xmm5"@, "xmm6"@, "xmm7"@]);
            }
            t
        },
        return_registers: {
            let mut t: Vec<String> = Vec::new();
            t.push(string_from("rax"));
            t.push(string_from("rdx"));
            proof {
                assert(texts_view(t@) =~= seq!["rax"@, "rdx"@]);
            }
            t
        },
        callee_saved_registers: {
            let mut t: Vec<String> = Vec::new();
            t.push(string_from("rbx"));
            t.push(string_from("rsp"));
            t.push(string_from("rbp"));
            t.push(string_from("r12"));
            t.push(string_from("r13"));
            t.push(string_from("r14"));
            t.push(string_from("r15"));
            proof {
                assert(texts_view(t@) =~= seq!["rbx"@, "rsp"@, "rbp"@, "r12"@, "r13"@, "r14"@, "r15"@]);
            }
            t
        },
        caller_saved_registers: {
            let mut t: Vec<String> = Vec::new();
            t.push(string_from("rax"));
            t.push(string_from("rcx"));
            t.push(string_from("rdx"));
            t.push(string_from("rsi"));
            t.push(string_from("rdi"));
            t.push(string_from("r8"));
            t.push(string_from("r9"));
            t.push(string_from("r10"));
            t.push(string_from("r11"));
            proof {
                assert(texts_view(t@) =~= seq!["rax"@, "rcx"@, "rdx"@, "rsi"@, "rdi"@, "r8"@, "r9"@, "r10"@, "r11"@]);
            }
            t
        },
        stack_alignment_bytes: 16,
        shadow_space_bytes: 0,
        red_zone_bytes: 128,
        rules_and_traps: {
            let mut t: Vec<String> = Vec::new();
            t.push(string_from("Stack MUST be aligned to 16 bytes before the CALL instruction."));
            t.push(string_from("The 128-byte red zone below RSP can be used by leaf functions without moving RSP."));
            t.push(string_from("Syscall clobbers RCX (saved RIP) and R11 (saved RFLAGS)."));
            t.push(string_from("Writing to 32-bit registers (e.g. eax) automatically zero-extends into 64-bit parent (rax)."));
            proof {
                assert(texts_view(t@) =~= seq!["Stack MUST be aligned to 16 bytes before the CALL instruction."@, "The 128-byte red zone below RSP can be used by leaf functions without moving RSP."@, "Syscall clobbers RCX (saved RIP) and R11 (saved RFLAGS)."@, "Writing to 32-bit registers (e.g. eax) automatically zero-extends into 64-bit parent (rax)."@]);
            }
            t
        },
    }));
    v.push(KnowledgeNode::CallingConvention(CallingConventionNode {
        id: CallingConvention::Windows_X64,
        name: string_from("Microsoft x64 Calling Convention (Windows)"),
        arch: Arch::X86_64,
        arg_registers: {
            let mut t: Vec<String> = Vec::new();
            t.push(string_from("rcx"));
            t.push(string_from("rdx"));
            t.push(string_from("r8"));
            t.push(string_from("r9"));
            proof {
                assert(texts_view(t@) =~= seq!["rcx"@, "rdx"@, "r8"@, "r9"@]);
            }
            t
        },
        float_arg_registers: {
            let mut t: Vec<String> = Vec::new();
            t.push(string_from("xmm0"));
            t.push(string_from("xmm1"));
            t.push(string_from("xmm2"));
            t.push(string_from("xmm3"));
            proof {
                assert(texts_view(t@) =~= seq!["xmm0"@, "xmm1"@, "xmm2"@, "xmm3"@]);
            }
            t
        },
        return_registers: {
            let mut t: Vec<String> = Vec::new();
            t.push(string_from("rax"));
            proof {
                assert(texts_view(t@) =~= seq!["rax"@]);
            }
            t
        },
        callee_saved_registers: {
            let mut t: Vec<String> = Vec::new();
            t.push(string_from("rbx"));
            t.push(string_from("rbp"));
            t.push(string_from("rdi"));
            t.push(string_from("rsi"));
            t.push(string_from("rsp"));
            t.push(string_from("r12"));
            t.push(string_from("r13"));
            t.push(string_from("r14"));
            t.push(string_from("r15"));
            t.push(string_from("xmm6"));
            t.push(string_from("xmm7"));
            proof {
                assert(texts_view(t@) =~= seq!["rbx"@, "rbp"@, "rdi"@, "rsi"@, "rsp"@, "r12"@, "r13"@, "r14"@, "r15"@, "xmm6"@, "xmm7"@]);
            }
            t
        },
        caller_saved_registers: {
            let mut t: Vec<String> = Vec::new();
            t.push(string_from("rax"));
            t.push(string_from("rcx"));
            t.push(string_from("rdx"));
            t.push(string_from("r8"));
            t.push(string_from("r9"));
            t.push(string_from("r10"));
            t.push(string_from("r11"));
            proof {
                assert(texts_view(t@) =~= seq!["rax"@, "rcx"@, "rdx"@, "r8"@, "r9"@, "r10"@, "r11"@]);
            }
            t
        },
        stack_alignment_bytes: 16,
        shadow_space_bytes: 32,
        red_zone_bytes: 0,
        rules_and_traps: {
            let mut t: Vec<String> = Vec::new();
            t.push(string_from("CALLER MUST allocate 32 bytes of 'shadow space' (home space) on stack before every CALL, even for 0-parameter functions!"));
            t.push(string_from("Stack MUST be 16-byte aligned before CALL."));
            t.push(string_from("RSI and RDI are CALLEE-SAVED on Windows, unlike System V where they are caller-saved!"));
            t.push(string_from("No Red Zone exists on Windows. Accessing memory below RSP will cause corruption if interrupts or APCs fire."));
            proof {
                assert(texts_view(t@) =~= seq!["CALLER MUST allocate 32 bytes of 'shadow space' (home space) on stack before every CALL, even for 0-parameter functions!"@, "Stack MUST be 16-byte aligned before CALL."@, "RSI and RDI are CALLEE-SAVED on Windows, unlike System V where they are caller-saved!"@, "No Red Zone exists on Windows. Accessing memory below RSP will cause corruption if interrupts or APCs fire."@]);
            }
            t
        },
    }));
    v.push(KnowledgeNode::CallingConvention(CallingConventionNode {
        id: CallingConvention::Arm64_AAPCS,
        name: string_from("ARM64 AAPCS (AArch64)"),
        arch: Arch::Arm64,
        arg_registers: {
            let mut t: Vec<String> = Vec::new();
            t.push(string_from("x0"));
            t.push(string_from("x1"));
            t.push(string_from("x2"));
            t.push(string_from("x3"));
            t.push(string_from("x4"));
            t.push(string_from("x5"));
            t.push(string_from("x6"));
            t.push(string_from("x7"));
            proof {
                assert(texts_view(t@) =~= seq!["x0"@, "x1"@, "x2"@, "x3"@, "x4"@, "x5"@, "x6"@, "x7"@]);
            }
            t
        },
        float_arg_registers: {
            let mut t: Vec<String> = Vec::new();
            t.push(string_from("v0"));
            t.push(string_from("v1"));
            t.push(string_from("v2"));
            t.push(string_from("v3"));
            t.push(string_from("v4"));
            t.push(string_from("v5"));
            t.push(string_from("v6"));
            t.push(string_from("v7"));
            proof {
                assert(texts_view(t@) =~= seq!["v0"@, "v1"@, "v2"@, "v3"@, "v4"@, "v5"@, "v6"@, "v7"@]);
            }
            t
        },
        return_registers: {
            let mut t: Vec<String> = Vec::new();
            t.push(string_from("x0"));
            t.push(string_from("x1"));
            proof {
                assert(texts_view(t@) =~= seq!["x0"@, "x1"@]);
            }
            t
        },
        callee_saved_registers: {
            let mut t: Vec<String> = Vec::new();
            t.push(string_from("x19"));
            t.push(string_from("x20"));
            t.push(string_from("x21"));
            t.push(string_from("x22"));
            t.push(string_from("x23"));
            t.push(string_from("x24"));
            t.push(string_from("x25"));
            t.push(string_from("x26"));
            t.push(string_from("x27"));
            t.push(string_from("x28"));
            t.push(string_from("x29"));
            t.push(string_from("x30"));
            proof {
                assert(texts_view(t@) =~= seq!["x19"@, "x20"@, "x21"@, "x22"@, "x23"@, "x24"@, "x25"@, "x26"@, "x27"@, "x28"@, "x29"@, "x30"@]);
            }
            t
        },
        caller_saved_registers: {
            let mut t: Vec<String> = Vec::new();
            t.push(string_from("x9"));
            t.push(string_from("x10"));
            t.push(string_from("x11"));
            t.push(string_from("x12"));
            t.push(string_from("x13"));
            t.push(string_from("x14"));
            t.push(string_from("x15"));
            proof {
                assert(texts_view(t@) =~= seq!["x9"@, "x10"@, "x11"@, "x12"@, "x13"@, "x14"@, "x15"@]);
            }
            t
        },
        stack_alignment_bytes: 16,
        shadow_space_bytes: 0,
        red_zone_bytes: 0,
        rules_and_traps: {
            let mut t: Vec<String> = Vec::new();
            t.push(string_from("Stack pointer SP MUST be 16-byte aligned whenever used as a memory base."));
            t.push(string_from("x29 is Frame Pointer (FP); x30 is Link Register (LR)."));
            proof {
                assert(texts_view(t@) =~= seq!["Stack pointer SP MUST be 16-byte aligned whenever used as a memory base."@, "x29 is Frame Pointer (FP); x30 is Link Register (LR)."@]);
            }
            t
        },
    }));
    v.push(KnowledgeNode::CallingConvention(CallingConventionNode {
        id: CallingConvention::Riscv_LP64,
        name: string_from("RISC-V Standard Calling Convention (LP64/LP64D)"),
        arch: Arch::Riscv64,
        arg_registers: {
            let mut t: Vec<String> = Vec::new();
            t.push(string_from("a0"));
            t.push(string_from("a1"));
            t.push(string_from("a2"));
            t.push(string_from("a3"));
            t.push(string_from("a4"));
            t.push(string_from("a5"));
            t.push(string_from("a6"));
            t.push(string_from("a7"));
            proof {
                assert(texts_view(t@) =~= seq!["a0"@, "a1"@, "a2"@, "a3"@, "a4"@, "a5"@, "a6"@, "a7"@]);
            }
            t
        },
        float_arg_registers: {
            let mut t: Vec<String> = Vec::new();
            t.push(string_from("fa0"));
            t.push(string_from("fa1"));
            t.push(string_from("fa2"));
            t.push(string_from("fa3"));
            t.push(string_from("fa4"));
            t.push(string_from("fa5"));
            t.push(string_from("fa6"));
            t.push(string_from("fa7"));
            proof {
                assert(texts_view(t@) =~= seq!["fa0"@, "fa1"@, "fa2"@, "fa3"@, "fa4"@, "fa5"@, "fa6"@, "fa7"@]);
            }
            t
        },
        return_registers: {
            let mut t: Vec<String> = Vec::new();
            t.push(string_from("a0"));
            t.push(string_from("a1"));
            proof {
                assert(texts_view(t@) =~= seq!["a0"@, "a1"@]);
            }
            t
        },
        callee_saved_registers: {
            let mut t: Vec<String> = Vec::new();
            t.push(string_from("s0"));
            t.push(string_from("s1"));
            t.push(string_from("s2"));
            t.push(string_from("s3"));
            t.push(string_from("s4"));
            t.push(string_from("s5"));
            t.push(string_from("s6"));
            t.push(string_from("s7"));
            t.push(string_from("s8"));
            t.push(string_from("s9"));
            t.push(string_from("s10"));
            t.push(string_from("s11"));
            t.push(string_from("sp"));
            proof {
                assert(texts_view(t@) =~= seq!["s0"@, "s1"@, "s2"@, "s3"@, "s4"@, "s5"@, "s6"@, "s7"@, "s8"@, "s9"@, "s10"@, "s11"@, "sp"@]);
            }
            t
        },
        caller_saved_registers: {
            let mut t: Vec<String> = Vec::new();
            t.push(string_from("t0"));
            t.push(string_from("t1"));
            t.push(string_from("t2"));
            t.push(string_from("t3"));
            t.push(string_from("t4"));
            t.push(string_from("t5"));
            t.push(string_from("t6"));
            t.push(string_from("ra"));
            proof {
                assert(texts_view(t@) =~= seq!["t0"@, "t1"@, "t2"@, "t3"@, "t4"@, "t5"@, "t6"@, "ra"@]);
            }
            t
        },
        stack_alignment_bytes: 16,
        shadow_space_bytes: 0,
        red_zone_bytes: 0,
        rules_and_traps: {
            let mut t: Vec<String> = Vec::new();
            t.push(string_from("Stack pointer SP MUST remain 16-byte aligned at all times."));
            t.push(string_from("Non-leaf functions MUST save return address 'ra' (x1) before calling 'jal'/'call'."));
            t.push(string_from("Division by zero does NOT cause an exception in RISC-V: 'div' returns -1, 'rem' returns dividend."));
            proof {
                assert(texts_view(t@) =~= seq!["Stack pointer SP MUST remain 16-byte aligned at all times."@, "Non-leaf functions MUST save return address 'ra' (x1) before calling 'jal'/'call'."@, "Division by zero does NOT cause an exception in RISC-V: 'div' returns -1, 'rem' returns dividend."@]);
            }
            t
        },
    }));
    proof {
        assert(nodes_view(v@) =~~= convention_views());
    }
    v
}

/// The instructions.
fn baseline_instructions() -> (v: Vec<KnowledgeNode>)
    ensures
        nodes_view(v@) == instruction_views(),
{
    let mut v: Vec<KnowledgeNode> = Vec::new();
    v.push(KnowledgeNode::Instruction(InstructionNode {
        mnemonic: string_from("add"),
        arch: Arch::X86_64,
        summary: string_from("Integer addition. Adds source to destination with carry/overflow update."),
        syntax_forms: {
            let mut t: Vec<String> = Vec::new();
            t.push(string_from("add reg, reg"));
            t.push(string_from("add reg, imm"));
            t.push(string_from("add reg, [mem]"));
            proof {
                assert(texts_view(t@) =~= seq!["add reg, reg"@, "add reg, imm"@, "add reg, [mem]"@]);
            }
            t
        },
        flags_read: {
            let t: Vec<String> = Vec::new();
            proof {
                assert(texts_view(t@) =~= Seq::<Seq<char>>::empty());
            }
            t
        },
        flags_written: {
            let mut t: Vec<String> = Vec::new();
            t.push(string_from("OF"));
            t.push(string_from("SF"));
            t.push(string_from("ZF"));
            t.push(string_from("AF"));
            t.push(string_from("CF"));
            t.push(string_from("PF"));
            proof {
                assert(texts_view(t@) =~= seq!["OF"@, "SF"@, "ZF"@, "AF"@, "CF"@, "PF"@]);
            }
            t
        },
        flags_undefined: {
            let t: Vec<String> = Vec::new();
            proof {
                assert(texts_view(t@) =~= Seq::<Seq<char>>::empty());
            }
            t
        },
        implicit_registers_read: {
            let t: Vec<String> = Vec::new();
            proof {
                assert(texts_view(t@) =~= Seq::<Seq<char>>::empty());
            }
            t
        },
        implicit_registers_written: {
            let t: Vec<String> = Vec::new();
            proof {
                assert(texts_view(t@) =~= Seq::<Seq<char>>::empty());
            }
            t
        },
        latency_centicycles: Some(100),
        throughput_centicycles: Some(25),
        extension: string_from("Base"),
        traps_and_pitfalls: {
            let mut t: Vec<String> = Vec::new();
            t.push(string_from("Sets CF on unsigned overflow, OF on signed overflow."));
            proof {
                assert(texts_view(t@) =~= seq!["Sets CF on unsigned overflow, OF on signed overflow."@]);
            }
            t
        },
    }));
    v.push(KnowledgeNode::Instruction(InstructionNode {
        mnemonic: string_from("sub"),
        arch: Arch::X86_64,
        summary: string_from("Integer subtraction. Subtracts source from destination."),
        syntax_forms: {
            let mut t: Vec<String> = Vec::new();
            t.push(string_from("sub reg, reg"));
            t.push(string_from("sub reg, imm"));
            t.push(string_from("sub reg, [mem]"));
            proof {
                assert(texts_view(t@) =~= seq!["sub reg, reg"@, "sub reg, imm"@, "sub reg, [mem]"@]);
            }
            t
        },
        flags_read: {
            let t: Vec<String> = Vec::new();
            proof {
                assert(texts_view(t@) =~= Seq::<Seq<char>>::empty());
            }
            t
        },
        flags_written: {
            let mut t: Vec<String> = Vec::new();
            t.push(string_from("OF"));
            t.push(string_from("SF"));
            t.push(string_from("ZF"));
            t.push(string_from("AF"));
            t.push(string_from("CF"));
            t.push(string_from("PF"));
            proof {
                assert(texts_view(t@) =~= seq!["OF"@, "SF"@, "ZF"@, "AF"@, "CF"@, "PF"@]);
            }
            t
        },
        flags_undefined: {
            let t: Vec<String> = Vec::new();
            proof {
                assert(texts_view(t@) =~= Seq::<Seq<char>>::empty());
            }
            t
        },
        implicit_registers_read: {
            let t: Vec<String> = Vec::new();
            proof {
                assert(texts_view(t@) =~= Seq::<Seq<char>>::empty());
            }
            t
        },
        implicit_registers_written: {
            let t: Vec<String> = Vec::new();
            proof {
                assert(texts_view(t@) =~= Seq::<Seq<char>>::empty());
            }
            t
        },
        latency_centicycles: Some(100),
        throughput_centicycles: Some(25),
        extension: string_from("Base"),
        traps_and_pitfalls: {
            let mut t: Vec<String> = Vec::new();
            t.push(string_from("Sets CF if borrow occurred (dest < src unsigned)."));
            proof {
                assert(texts_view(t@) =~= seq!["Sets CF if borrow occurred (dest < src unsigned)."@]);
            }
            t
        },
    }));
    v.push(KnowledgeNode::Instruction(InstructionNode {
        mnemonic: string_from("imul"),
        arch: Arch::X86_64,
        summary: string_from("Signed integer multiplication. Available in 1-operand, 2-operand (imul r, r), and 3-operand (imul r, r, imm) forms."),
        syntax_forms: {
            let mut t: Vec<String> = Vec::new();
            t.push(string_from("imul reg"));
            t.push(string_from("imul reg, reg/mem"));
            t.push(string_from("imul reg, reg/mem, imm"));
            proof {
                assert(texts_view(t@) =~= seq!["imul reg"@, "imul reg, reg/mem"@, "imul reg, reg/mem, imm"@]);
            }
            t
        },
        flags_read: {
            let t: Vec<String> = Vec::new();
            proof {
                assert(texts_view(t@) =~= Seq::<Seq<char>>::empty());
            }
            t
        },
        flags_written: {
            let mut t: Vec<String> = Vec::new();
            t.push(string_from("CF"));
            t.push(string_from("OF"));
            proof {
                assert(texts_view(t@) =~= seq!["CF"@, "OF"@]);
            }
            t
        },
        flags_undefined: {
            let mut t: Vec<String> = Vec::new();
            t.push(string_from("SF"));
            t.push(string_from("ZF"));
            t.push(string_from("AF"));
            t.push(string_from("PF"));
            proof {
                assert(texts_view(t@) =~= seq!["SF"@, "ZF"@, "AF"@, "PF"@]);
            }
            t
        },
        implicit_registers_read: {
            let mut t: Vec<String> = Vec::new();
            t.push(string_from("rax"));
            proof {
                assert(texts_view(t@) =~= seq!["rax"@]);
            }
            t
        },
        implicit_registers_written: {
            let mut t: Vec<String> = Vec::new();
            t.push(string_from("rdx"));
            t.push(string_from("rax"));
            proof {
                assert(texts_view(t@) =~= seq!["rdx"@, "rax"@]);
            }
            t
        },
        latency_centicycles: Some(300),
        throughput_centicycles: Some(100),
        extension: string_from("Base"),
        traps_and_pitfalls: {
            let mut t: Vec<String> = Vec::new();
            t.push(string_from("In 2-operand and 3-operand forms, destination MUST be a register!"));
            t.push(string_from("CF and OF are set if the significant bits of the result exceed destination register width."));
            proof {
                assert(texts_view(t@) =~= seq!["In 2-operand and 3-operand forms, destination MUST be a register!"@, "CF and OF are set if the significant bits of the result exceed destination register width."@]);
            }
            t
        },
    }));
    v.push(KnowledgeNode::Instruction(InstructionNode {
        mnemonic: string_from("idiv"),
        arch: Arch::X86_64,
        summary: string_from("Signed integer divide. Divides RDX:RAX by operand. Quotient returned in RAX, Remainder in RDX."),
        syntax_forms: {
            let mut t: Vec<String> = Vec::new();
            t.push(string_from("idiv reg/mem"));
            proof {
                assert(texts_view(t@) =~= seq!["idiv reg/mem"@]);
            }
            t
        },
        flags_read: {
            let t: Vec<String> = Vec::new();
            proof {
                assert(texts_view(t@) =~= Seq::<Seq<char>>::empty());
            }
            t
        },
        flags_written: {
            let t: Vec<String> = Vec::new();
            proof {
                assert(texts_view(t@) =~= Seq::<Seq<char>>::empty());
            }
            t
        },
        flags_undefined: {
            let mut t: Vec<String> = Vec::new();
            t.push(string_from("CF"));
            t.push(string_from("OF"));
            t.push(string_from("SF"));
            t.push(string_from("ZF"));
            t.push(string_from("AF"));
            t.push(string_from("PF"));
            proof {
                assert(texts_view(t@) =~= seq!["CF"@, "OF"@, "SF"@, "ZF"@, "AF"@, "PF"@]);
            }
            t
        },
        implicit_registers_read: {
            let mut t: Vec<String> = Vec::new();
            t.push(string_from("rdx"));
            t.push(string_from("rax"));
            proof {
                assert(texts_view(t@) =~= seq!["rdx"@, "rax"@]);
            }
            t
        },
        implicit_registers_written: {
            let mut t: Vec<String> = Vec::new();
            t.push(string_from("rax (quotient)"));
            t.push(string_from("rdx (remainder)"));
            proof {
                assert(texts_view(t@) =~= seq!["rax (quotient)"@, "rdx (remainder)"@]);
            }
            t
        },
        latency_centicycles: Some(1800),
        throughput_centicycles: Some(600),
        extension: string_from("Base"),
        traps_and_pitfalls: {
            let mut t: Vec<String> = Vec::new();
            t.push(string_from("MANDATORY: Must execute 'cqo' (or 'cdq') prior to IDIV to sign-extend RAX into RDX:RAX!"));
            t.push(string_from("CRITICAL TRAP: Triggers #DE (Divide Error Exception) if divisor is 0 or if quotient overflows (e.g. INT64_MIN / -1)."));
            proof {
                assert(texts_view(t@) =~= seq!["MANDATORY: Must execute 'cqo' (or 'cdq') prior to IDIV to sign-extend RAX into RDX:RAX!"@, "CRITICAL TRAP: Triggers #DE (Divide Error Exception) if divisor is 0 or if quotient overflows (e.g. INT64_MIN / -1)."@]);
            }
            t
        },
    }));
    v.push(KnowledgeNode::Instruction(InstructionNode {
        mnemonic: string_from("cqo"),
        arch: Arch::X86_64,
        summary: string_from("Convert Quadword to Octaword. Sign-extends RAX into RDX:RAX for 64-bit IDIV."),
        syntax_forms: {
            let mut t: Vec<String> = Vec::new();
            t.push(string_from("cqo"));
            proof {
                assert(texts_view(t@) =~= seq!["cqo"@]);
            }
            t
        },
        flags_read: {
            let t: Vec<String> = Vec::new();
            proof {
                assert(texts_view(t@) =~= Seq::<Seq<char>>::empty());
            }
            t
        },
        flags_written: {
            let t: Vec<String> = Vec::new();
            proof {
                assert(texts_view(t@) =~= Seq::<Seq<char>>::empty());
            }
            t
        },
        flags_undefined: {
            let t: Vec<String> = Vec::new();
            proof {
                assert(texts_view(t@) =~= Seq::<Seq<char>>::empty());
            }
            t
        },
        implicit_registers_read: {
            let mut t: Vec<String> = Vec::new();
            t.push(string_from("rax"));
            proof {
                assert(texts_view(t@) =~= seq!["rax"@]);
            }
            t
        },
        implicit_registers_written: {
            let mut t: Vec<String> = Vec::new();
            t.push(string_from("rdx"));
            proof {
                assert(texts_view(t@) =~= seq!["rdx"@]);
            }
            t
        },
        latency_centicycles: Some(100),
        throughput_centicycles: Some(50),
        extension: string_from("Base"),
        traps_and_pitfalls: {
            let mut t: Vec<String> = Vec::new();
            t.push(string_from("Clobbers RDX completely with the sign bit of RAX."));
            proof {
                assert(texts_view(t@) =~= seq!["Clobbers RDX completely with the sign bit of RAX."@]);
            }
            t
        },
    }));
    v.push(KnowledgeNode::Instruction(InstructionNode {
        mnemonic: string_from("neg"),
        arch: Arch::X86_64,
        summary: string_from("Two's complement negation (dest = 0 - dest)."),
        syntax_forms: {
            let mut t: Vec<String> = Vec::new();
            t.push(string_from("neg reg"));
            t.push(string_from("neg [mem]"));
            proof {
                assert(texts_view(t@) =~= seq!["neg reg"@, "neg [mem]"@]);
            }
            t
        },
        flags_read: {
            let t: Vec<String> = Vec::new();
            proof {
                assert(texts_view(t@) =~= Seq::<Seq<char>>::empty());
            }
            t
        },
        flags_written: {
            let mut t: Vec<String> = Vec::new();
            t.push(string_from("CF"));
            t.push(string_from("OF"));
            t.push(string_from("SF"));
            t.push(string_from("ZF"));
            t.push(string_from("AF"));
            t.push(string_from("PF"));
            proof {
                assert(texts_view(t@) =~= seq!["CF"@, "OF"@, "SF"@, "ZF"@, "AF"@, "PF"@]);
            }
            t
        },
        flags_undefined: {
            let t: Vec<String> = Vec::new();
            proof {
                assert(texts_view(t@) =~= Seq::<Seq<char>>::empty());
            }
            t
        },
        implicit_registers_read: {
            let t: Vec<String> = Vec::new();
            proof {
                assert(texts_view(t@) =~= Seq::<Seq<char>>::empty());
            }
            t
        },
        implicit_registers_written: {
            let t: Vec<String> = Vec::new();
            proof {
                assert(texts_view(t@) =~= Seq::<Seq<char>>::empty());
            }
            t
        },
        latency_centicycles: Some(100),
        throughput_centicycles: Some(50),
        extension: string_from("Base"),
        traps_and_pitfalls: {
            let mut t: Vec<String> = Vec::new();
            t.push(string_from("CF is set to 0 if operand is 0, and 1 if non-zero."));
            proof {
                assert(texts_view(t@) =~= seq!["CF is set to 0 if operand is 0, and 1 if non-zero."@]);
            }
            t
        },
    }));
    v.push(KnowledgeNode::Instruction(InstructionNode {
        mnemonic: string_from("xor"),
        arch: Arch::X86_64,
        summary: string_from("Bitwise logical Exclusive OR. 'xor reg, reg' is the canonical zero-latency register zeroing idiom."),
        syntax_forms: {
            let mut t: Vec<String> = Vec::new();
            t.push(string_from("xor reg, reg"));
            t.push(string_from("xor reg, imm"));
            t.push(string_from("xor reg, [mem]"));
            proof {
                assert(texts_view(t@) =~= seq!["xor reg, reg"@, "xor reg, imm"@, "xor reg, [mem]"@]);
            }
            t
        },
        flags_read: {
            let t: Vec<String> = Vec::new();
            proof {
                assert(texts_view(t@) =~= Seq::<Seq<char>>::empty());
            }
            t
        },
        flags_written: {
            let mut t: Vec<String> = Vec::new();
            t.push(string_from("CF"));
            t.push(string_from("OF"));
            t.push(string_from("SF"));
            t.push(string_from("ZF"));
            t.push(string_from("PF"));
            proof {
                assert(texts_view(t@) =~= seq!["CF"@, "OF"@, "SF"@, "ZF"@, "PF"@]);
            }
            t
        },
        flags_undefined: {
            let mut t: Vec<String> = Vec::new();
            t.push(string_from("AF"));
            proof {
                assert(texts_view(t@) =~= seq!["AF"@]);
            }
            t
        },
        implicit_registers_read: {
            let t: Vec<String> = Vec::new();
            proof {
                assert(texts_view(t@) =~= Seq::<Seq<char>>::empty());
            }
            t
        },
        implicit_registers_written: {
            let t: Vec<String> = Vec::new();
            proof {
                assert(texts_view(t@) =~= Seq::<Seq<char>>::empty());
            }
            t
        },
        latency_centicycles: Some(25),
        throughput_centicycles: Some(25),
        extension: string_from("Base"),
        traps_and_pitfalls: {
            let mut t: Vec<String> = Vec::new();
            t.push(string_from("Clears CF and OF unconditionally."));
            t.push(string_from("Writing to 32-bit register e.g. 'xor eax, eax' automatically clears upper 32 bits of RAX and breaks dependency chains."));
            proof {
                assert(texts_view(t@) =~= seq!["Clears CF and OF unconditionally."@, "Writing to 32-bit register e.g. 'xor eax, eax' automatically clears upper 32 bits of RAX and breaks dependency chains."@]);
            }
            t
        },
    }));
    v.push(KnowledgeNode::Instruction(InstructionNode {
        mnemonic: string_from("lea"),
        arch: Arch::X86_64,
        summary: string_from("Load Effective Address. Calculates memory address without accessing memory. Ideal for fast math (base + index*scale + disp)."),
        syntax_forms: {
            let mut t: Vec<String> = Vec::new();
            t.push(string_from("lea reg, [base + index*scale + disp]"));
            proof {
                assert(texts_view(t@) =~= seq!["lea reg, [base + index*scale + disp]"@]);
            }
            t
        },
        flags_read: {
            let t: Vec<String> = Vec::new();
            proof {
                assert(texts_view(t@) =~= Seq::<Seq<char>>::empty());
            }
            t
        },
        flags_written: {
            let t: Vec<String> = Vec::new();
            proof {
                assert(texts_view(t@) =~= Seq::<Seq<char>>::empty());
            }
            t
        },
        flags_undefined: {
            let t: Vec<String> = Vec::new();
            proof {
                assert(texts_view(t@) =~= Seq::<Seq<char>>::empty());
            }
            t
        },
        implicit_registers_read: {
            let t: Vec<String> = Vec::new();
            proof {
                assert(texts_view(t@) =~= Seq::<Seq<char>>::empty());
            }
            t
        },
        implicit_registers_written: {
            let t: Vec<String> = Vec::new();
            proof {
                assert(texts_view(t@) =~= Seq::<Seq<char>>::empty());
            }
            t
        },
        latency_centicycles: Some(100),
        throughput_centicycles: Some(50),
        extension: string_from("Base"),
        traps_and_pitfalls: {
            let mut t: Vec<String> = Vec::new();
            t.push(string_from("Does NOT modify any CPU flags! Ideal for arithmetic where flags must be preserved."));
            t.push(string_from("Use RIP-relative addressing 'lea rax, [rip + symbol]' for position-independent code (PIC)."));
            proof {
                assert(texts_view(t@) =~= seq!["Does NOT modify any CPU flags! Ideal for arithmetic where flags must be preserved."@, "Use RIP-relative addressing 'lea rax, [rip + symbol]' for position-independent code (PIC)."@]);
            }
            t
        },
    }));
    v.push(KnowledgeNode::Instruction(InstructionNode {
        mnemonic: string_from("inc"),
        arch: Arch::X86_64,
        summary: string_from("Increment register or memory by 1."),
        syntax_forms: {
            let mut t: Vec<String> = Vec::new();
            t.push(string_from("inc reg"));
            t.push(string_from("inc byte/dword/qword [mem]"));
            proof {
                assert(texts_view(t@) =~= seq!["inc reg"@, "inc byte/dword/qword [mem]"@]);
            }
            t
        },
        flags_read: {
            let t: Vec<String> = Vec::new();
            proof {
                assert(texts_view(t@) =~= Seq::<Seq<char>>::empty());
            }
            t
        },
        flags_written: {
            let mut t: Vec<String> = Vec::new();
            t.push(string_from("OF"));
            t.push(string_from("SF"));
            t.push(string_from("ZF"));
            t.push(string_from("AF"));
            t.push(string_from("PF"));
            proof {
                assert(texts_view(t@) =~= seq!["OF"@, "SF"@, "ZF"@, "AF"@, "PF"@]);
            }
            t
        },
        flags_undefined: {
            let t: Vec<String> = Vec::new();
            proof {
                assert(texts_view(t@) =~= Seq::<Seq<char>>::empty());
            }
            t
        },
        implicit_registers_read: {
            let t: Vec<String> = Vec::new();
            proof {
                assert(texts_view(t@) =~= Seq::<Seq<char>>::empty());
            }
            t
        },
        implicit_registers_written: {
            let t: Vec<String> = Vec::new();
            proof {
                assert(texts_view(t@) =~= Seq::<Seq<char>>::empty());
            }
            t
        },
        latency_centicycles: Some(100),
        throughput_centicycles: Some(50),
        extension: string_from("Base"),
        traps_and_pitfalls: {
            let mut t: Vec<String> = Vec::new();
            t.push(string_from("CRITICAL: INC does NOT modify CF (Carry Flag)! Prefer 'add reg, 1' if flags are needed."));
            proof {
                assert(texts_view(t@) =~= seq!["CRITICAL: INC does NOT modify CF (Carry Flag)! Prefer 'add reg, 1' if flags are needed."@]);
            }
            t
        },
    }));
    v.push(KnowledgeNode::Instruction(InstructionNode {
        mnemonic: string_from("syscall"),
        arch: Arch::X86_64,
        summary: string_from("Fast system call into the OS kernel."),
        syntax_forms: {
            let mut t: Vec<String> = Vec::new();
            t.push(string_from("syscall"));
            proof {
                assert(texts_view(t@) =~= seq!["syscall"@]);
            }
            t
        },
        flags_read: {
            let t: Vec<String> = Vec::new();
            proof {
                assert(texts_view(t@) =~= Seq::<Seq<char>>::empty());
            }
            t
        },
        flags_written: {
            let t: Vec<String> = Vec::new();
            proof {
                assert(texts_view(t@) =~= Seq::<Seq<char>>::empty());
            }
            t
        },
        flags_undefined: {
            let t: Vec<String> = Vec::new();
            proof {
                assert(texts_view(t@) =~= Seq::<Seq<char>>::empty());
            }
            t
        },
        implicit_registers_read: {
            let mut t: Vec<String> = Vec::new();
            t.push(string_from("rax"));
            t.push(string_from("rdi"));
            t.push(string_from("rsi"));
            t.push(string_from("rdx"));
            t.push(string_from("r10"));
            t.push(string_from("r8"));
            t.push(string_from("r9"));
            proof {
                assert(texts_view(t@) =~= seq!["rax"@, "rdi"@, "rsi"@, "rdx"@, "r10"@, "r8"@, "r9"@]);
            }
            t
        },
        implicit_registers_written: {
            let mut t: Vec<String> = Vec::new();
            t.push(string_from("rcx"));
            t.push(string_from("r11"));
            t.push(string_from("rax"));
            proof {
                assert(texts_view(t@) =~= seq!["rcx"@, "r11"@, "rax"@]);
            }
            t
        },
        latency_centicycles: None,
        throughput_centicycles: None,
        extension: string_from("Base"),
        traps_and_pitfalls: {
            let mut t: Vec<String> = Vec::new();
            t.push(string_from("DESTRUCTIVE: Hardware SYSCALL always clobbers RCX (stores RIP) and R11 (stores RFLAGS)."));
            t.push(string_from("In Linux x86_64, the 4th argument is in R10, NOT RCX."));
            proof {
                assert(texts_view(t@) =~= seq!["DESTRUCTIVE: Hardware SYSCALL always clobbers RCX (stores RIP) and R11 (stores RFLAGS)."@, "In Linux x86_64, the 4th argument is in R10, NOT RCX."@]);
            }
            t
        },
    }));
    v.push(KnowledgeNode::Instruction(InstructionNode {
        mnemonic: string_from("vzeroupper"),
        arch: Arch::X86_64,
        summary: string_from("Zero upper 128-bits of all YMM/ZMM registers. Avoids AVX-to-SSE transition penalties."),
        syntax_forms: {
            let mut t: Vec<String> = Vec::new();
            t.push(string_from("vzeroupper"));
            proof {
                assert(texts_view(t@) =~= seq!["vzeroupper"@]);
            }
            t
        },
        flags_read: {
            let t: Vec<String> = Vec::new();
            proof {
                assert(texts_view(t@) =~= Seq::<Seq<char>>::empty());
            }
            t
        },
        flags_written: {
            let t: Vec<String> = Vec::new();
            proof {
                assert(texts_view(t@) =~= Seq::<Seq<char>>::empty());
            }
            t
        },
        flags_undefined: {
            let t: Vec<String> = Vec::new();
            proof {
                assert(texts_view(t@) =~= Seq::<Seq<char>>::empty());
            }
            t
        },
        implicit_registers_read: {
            let t: Vec<String> = Vec::new();
            proof {
                assert(texts_view(t@) =~= Seq::<Seq<char>>::empty());
            }
            t
        },
        implicit_registers_written: {
            let mut t: Vec<String> = Vec::new();
            t.push(string_from("ymm0-ymm15"));
            proof {
                assert(texts_view(t@) =~= seq!["ymm0-ymm15"@]);
            }
            t
        },
        latency_centicycles: Some(400),
        throughput_centicycles: Some(400),
        extension: string_from("AVX"),
        traps_and_pitfalls: {
            let mut t: Vec<String> = Vec::new();
            t.push(string_from("MANDATORY: Must be executed before leaving any AVX function (before RET) or calling legacy SSE functions."));
            proof {
                assert(texts_view(t@) =~= seq!["MANDATORY: Must be executed before leaving any AVX function (before RET) or calling legacy SSE functions."@]);
            }
            t
        },
    }));
    proof {
        assert(nodes_view(v@) =~~= instruction_views());
    }
    v
}

/// The optimization idioms.
fn baseline_idioms() -> (v: Vec<KnowledgeNode>)
    ensures
        nodes_view(v@) == idiom_views(),
{
    let mut v: Vec<KnowledgeNode> = Vec::new();
    v.push(KnowledgeNode::Idiom(IdiomNode {
        id: string_from("branchless_abs_x86_64"),
        name: string_from("Branchless Absolute Value (x86_64)"),
        category: string_from("branchless"),
        arch: Arch::X86_64,
        description: string_from("Computes |x| for signed 64-bit integer in RAX without conditional jumps."),
        assembly_intel: string_from("mov rdx, rax\nsar rdx, 63\nxor rax, rdx\nsub rax, rdx"),
        assembly_att: Some(string_from("movq %rax, %rdx\nsarq $63, %rdx\nxorq %rdx, %rax\nsubq %rdx, %rax")),
        assembly_arm64: Some(string_from("cmp x0, #0\ncsneg x0, x0, x0, mi")),
        why_it_matters: string_from("Completely eliminates branch misprediction penalties (15-20 cycles on modern CPUs)."),
        latency_cycles: string_from("3 cycles"),
    }));
    v.push(KnowledgeNode::Idiom(IdiomNode {
        id: string_from("branchless_min_max_x86_64"),
        name: string_from("Branchless Min / Max using CMOVcc"),
        category: string_from("branchless"),
        arch: Arch::X86_64,
        description: string_from("Selects min or max of RAX and RBX without branching."),
        assembly_intel: string_from("cmp rax, rbx\ncmovg rax, rbx ; for min (signed)\n; or cmovl rax, rbx ; for max"),
        assembly_att: Some(string_from("cmpq %rbx, %rax\ncmovg %rbx, %rax")),
        assembly_arm64: Some(string_from("cmp x0, x1\ncsel x0, x0, x1, le ; min")),
        why_it_matters: string_from("Single CMP followed by single CMOVcc eliminates branch predictor thrashing."),
        latency_cycles: string_from("2 cycles"),
    }));
    v.push(KnowledgeNode::Idiom(IdiomNode {
        id: string_from("zero_latency_register_clear"),
        name: string_from("Zero-Latency Register Clearing"),
        category: string_from("zeroing"),
        arch: Arch::X86_64,
        description: string_from("Clears a register to 0 with zero execution port latency on modern x86 cores."),
        assembly_intel: string_from("xor eax, eax ; Note: 32-bit register clears 64-bit RAX!"),
        assembly_att: Some(string_from("xorl %eax, %eax")),
        assembly_arm64: Some(string_from("mov x0, xzr")),
        why_it_matters: string_from("Recognized by CPU register renaming unit as a zero-latency idiom."),
        latency_cycles: string_from("0 cycles (handled at rename stage)"),
    }));
    v.push(KnowledgeNode::Idiom(IdiomNode {
        id: string_from("checked_imul_overflow"),
        name: string_from("Checked Signed Multiplication with Overflow Detection"),
        category: string_from("checked_arithmetic"),
        arch: Arch::X86_64,
        description: string_from("Detects 64-bit integer overflow immediately upon multiplication using the CPU Overflow Flag (OF)."),
        assembly_intel: string_from("imul rax, rdx\njo .overflow_handler ; Jump if product does not fit in 64 bits"),
        assembly_att: Some(string_from("imulq %rdx, %rax\njo .overflow_handler")),
        assembly_arm64: Some(string_from("smull x2, w0, w1\n// Or test high half in ARM64")),
        why_it_matters: string_from("Prevents silent integer wraparound corruptions that produce wild mathematical errors."),
        latency_cycles: string_from("3 cycles + 1 branch cycle"),
    }));
    v.push(KnowledgeNode::Idiom(IdiomNode {
        id: string_from("full_128bit_multiplication"),
        name: string_from("Full 128-Bit Integer Multiplication (No Truncation)"),
        category: string_from("multi_precision"),
        arch: Arch::X86_64,
        description: string_from("Multiplies two 64-bit integers and captures the entire 128-bit product in RDX:RAX without any truncation."),
        assembly_intel: string_from("mov rax, rcx\nmul rdx       ; RDX:RAX = RCX * RDX (RDX = upper 64 bits, RAX = lower 64 bits)"),
        assembly_att: Some(string_from("movq %rcx, %rax\nmulq %rdx")),
        assembly_arm64: Some(string_from("mul x2, x0, x1\numulh x3, x0, x1 ; x3 = high 64 bits, x2 = low 64 bits")),
        why_it_matters: string_from("Permits arbitrary-precision bignum arithmetic and eliminates overflow completely for 64-bit inputs."),
        latency_cycles: string_from("4 cycles"),
    }));
    v.push(KnowledgeNode::Idiom(IdiomNode {
        id: string_from("decimal_fraction_expansion"),
        name: string_from("Decimal Fraction Expansion from Division Remainder"),
        category: string_from("formatting"),
        arch: Arch::X86_64,
        description: string_from("Expands integer division remainder into exact decimal digits (e.g. 1/3 -> 0.333333, 9/7 -> 1.285714)."),
        assembly_intel: string_from("; After idiv r10 (RAX = quotient, RDX = remainder):\n; Loop to extract decimal digits:\n.digit_loop:\nmov rax, rdx\nimul rax, 10\ncqo\nidiv r10       ; RAX = next decimal digit, RDX = new remainder\n// append RAX + '0' to output buffer\ntest rdx, rdx\njnz .digit_loop"),
        assembly_att: None,
        assembly_arm64: None,
        why_it_matters: string_from("Turns basic integer truncation (like 1/3 = 0) into precise decimal output without floating point errors."),
        latency_cycles: string_from("~18 cycles per decimal digit"),
    }));
    v.push(KnowledgeNode::Idiom(IdiomNode {
        id: string_from("sse2_double_precision_division"),
        name: string_from("IEEE 754 Double-Precision Float Division (SSE2)"),
        category: string_from("floating_point"),
        arch: Arch::X86_64,
        description: string_from("Performs true 64-bit floating-point division using hardware vector registers XMM0/XMM1."),
        assembly_intel: string_from("cvtsi2sd xmm0, rcx ; Convert int64 dividend to double\ncvtsi2sd xmm1, rdx ; Convert int64 divisor to double\ndivsd xmm0, xmm1   ; XMM0 = dividend / divisor"),
        assembly_att: Some(string_from("cvtsi2sdq %rcx, %xmm0\ncvtsi2sdq %rdx, %xmm1\ndivsd %xmm1, %xmm0")),
        assembly_arm64: Some(string_from("scvtf d0, x0\nscvtf d1, x1\nfdiv d0, d0, d1")),
        why_it_matters: string_from("Delivers IEEE-754 compliant double-precision floats with zero truncation."),
        latency_cycles: string_from("~14 cycles"),
    }));
    v.push(KnowledgeNode::Idiom(IdiomNode {
        id: string_from("arm64_checked_division_remainder"),
        name: string_from("ARM64 Safe Division with Remainder Computation"),
        category: string_from("arithmetic"),
        arch: Arch::Arm64,
        description: string_from("Guards against division by zero (which returns 0 silently in AArch64) and computes the remainder using MSUB."),
        assembly_intel: string_from("; x86 equivalent: test rdx, rdx; jz .err; idiv rdx"),
        assembly_att: None,
        assembly_arm64: Some(string_from("cbz x1, .div_zero_error  // Guard division by zero\nsdiv x2, x0, x1           // x2 = quotient (x0 / x1)\nmsub x3, x2, x1, x0       // x3 = remainder: x0 - (x2 * x1)")),
        why_it_matters: string_from("Prevents silent division-by-zero logic errors and recovers the remainder without needing extra division steps."),
        latency_cycles: string_from("4 cycles"),
    }));
    v.push(KnowledgeNode::Idiom(IdiomNode {
        id: string_from("riscv_checked_division_remainder"),
        name: string_from("RISC-V Safe Division and Remainder"),
        category: string_from("arithmetic"),
        arch: Arch::Riscv64,
        description: string_from("Guards against division by zero (which returns -1 silently in RISC-V) and executes div and rem."),
        assembly_intel: string_from("; x86 equivalent: idiv"),
        assembly_att: None,
        assembly_arm64: None,
        why_it_matters: string_from("RISC-V hardware specifies no hardware exception on divide-by-zero, requiring an explicit branch to prevent silent corrupted state."),
        latency_cycles: string_from("5-32 cycles (M extension)"),
    }));
    v.push(KnowledgeNode::Idiom(IdiomNode {
        id: string_from("safe_signed_negation"),
        name: string_from("Safe Signed Negation Handling INT_MIN"),
        category: string_from("checked_arithmetic"),
        arch: Arch::X86_64,
        description: string_from("Safely negates a signed integer and branches on overflow if the value is INT64_MIN (-2^63)."),
        assembly_intel: string_from("neg rax\njo .overflow_handler ; Triggered if RAX was 0x8000000000000000"),
        assembly_att: Some(string_from("negq %rax\njo .overflow_handler")),
        assembly_arm64: Some(string_from("negs x0, x0\nb.vs .overflow_handler")),
        why_it_matters: string_from("In two's complement, -INT_MIN cannot be represented as a positive signed number and wraps back to INT_MIN."),
        latency_cycles: string_from("1 cycle"),
    }));
    v.push(KnowledgeNode::Idiom(IdiomNode {
        id: string_from("multi_precision_adc_chain"),
        name: string_from("Multi-Precision 128-Bit Addition (ADC Chain)"),
        category: string_from("multi_precision"),
        arch: Arch::X86_64,
        description: string_from("Chains ADD and ADC to add 128-bit integers across two 64-bit register pairs."),
        assembly_intel: string_from("add rax, rcx ; add low 64 bits (sets CF)\nadc rdx, r8  ; add high 64 bits with CF carry"),
        assembly_att: Some(string_from("addq %rcx, %rax\nadcq %r8, %rdx")),
        assembly_arm64: Some(string_from("adds x0, x0, x2\nadc x1, x1, x3")),
        why_it_matters: string_from("Forms the fundamental building block of arbitrary-precision bignum arithmetic and cryptographic primitives."),
        latency_cycles: string_from("2 cycles"),
    }));
    v.push(KnowledgeNode::Idiom(IdiomNode {
        id: string_from("windows_x64_callee_saved_prologue"),
        name: string_from("Standard Windows x64 ABI Non-Volatile Prologue & Epilogue"),
        category: string_from("calling_convention"),
        arch: Arch::X86_64,
        description: string_from("Preserves all required callee-saved registers (RBX, RSI, RDI, R12-R15) and allocates shadow space with 16-byte alignment."),
        assembly_intel: string_from("push rbx\npush rsi\npush rdi\npush r12\npush r13\npush r14\npush r15\nsub rsp, 48 ; 7 pushes (56) + 8 ret = 64 (0 mod 16). 64 + 48 = 112 (multiple of 16)\n; ... body ...\nadd rsp, 48\npop r15\npop r14\npop r13\npop r12\npop rdi\npop rsi\npop rbx\nret"),
        assembly_att: None,
        assembly_arm64: None,
        why_it_matters: string_from("Failing to preserve RSI/RDI on Windows x64 corrupts the caller's state, leading to intermittent and catastrophic crashes."),
        latency_cycles: string_from("Minimal push/pop overhead"),
    }));
    proof {
        assert(nodes_view(v@) =~~= idiom_views());
    }
    v
}

/// The system calls.
fn baseline_syscalls() -> (v: Vec<KnowledgeNode>)
    ensures
        nodes_view(v@) == syscall_views(),
{
    let mut v: Vec<KnowledgeNode> = Vec::new();
    v.push(KnowledgeNode::Syscall(SyscallNode {
        id: 0,
        name: string_from("sys_read"),
        arch: Arch::X86_64,
        os: string_from("linux"),
        signature: string_from("ssize_t read(int fd, void *buf, size_t count)"),
        arg_registers: {
            let mut t: Vec<String> = Vec::new();
            t.push(string_from("rdi (fd)"));
            t.push(string_from("rsi (buf)"));
            t.push(string_from("rdx (count)"));
            proof {
                assert(texts_view(t@) =~= seq!["rdi (fd)"@, "rsi (buf)"@, "rdx (count)"@]);
            }
            t
        },
        return_register: string_from("rax (bytes read or negative error code)"),
        clobbered_registers: {
            let mut t: Vec<String> = Vec::new();
            t.push(string_from("rcx"));
            t.push(string_from("r11"));
            proof {
                assert(texts_view(t@) =~= seq!["rcx"@, "r11"@]);
            }
            t
        },
    }));
    v.push(KnowledgeNode::Syscall(SyscallNode {
        id: 1,
        name: string_from("sys_write"),
        arch: Arch::X86_64,
        os: string_from("linux"),
        signature: string_from("ssize_t write(int fd, const void *buf, size_t count)"),
        arg_registers: {
            let mut t: Vec<String> = Vec::new();
            t.push(string_from("rdi (fd)"));
            t.push(string_from("rsi (buf)"));
            t.push(string_from("rdx (count)"));
            proof {
                assert(texts_view(t@) =~= seq!["rdi (fd)"@, "rsi (buf)"@, "rdx (count)"@]);
            }
            t
        },
        return_register: string_from("rax (bytes written or negative error code)"),
        clobbered_registers: {
            let mut t: Vec<String> = Vec::new();
            t.push(string_from("rcx"));
            t.push(string_from("r11"));
            proof {
                assert(texts_view(t@) =~= seq!["rcx"@, "r11"@]);
            }
            t
        },
    }));
    v.push(KnowledgeNode::Syscall(SyscallNode {
        id: 60,
        name: string_from("sys_exit"),
        arch: Arch::X86_64,
        os: string_from("linux"),
        signature: string_from("void exit(int status)"),
        arg_registers: {
            let mut t: Vec<String> = Vec::new();
            t.push(string_from("rdi (status)"));
            proof {
                assert(texts_view(t@) =~= seq!["rdi (status)"@]);
            }
            t
        },
        return_register: string_from("Does not return"),
        clobbered_registers: {
            let mut t: Vec<String> = Vec::new();
            t.push(string_from("rcx"));
            t.push(string_from("r11"));
            proof {
                assert(texts_view(t@) =~= seq!["rcx"@, "r11"@]);
            }
            t
        },
    }));
    proof {
        assert(nodes_view(v@) =~~= syscall_views());
    }
    v
}

/// The bundled knowledge, in the order it is added.
pub open spec fn baseline_views() -> Seq<KnowledgeView> {
    flag_views() + convention_views() + instruction_views() + idiom_views() + syscall_views()
}

/// Adds the bundled knowledge after the nodes already there: six flags, four
/// calling conventions, eleven instructions, twelve idioms and three Linux
/// system calls, each filed in the indexes as its `add_` method files it.
pub fn populate_baseline_knowledge(kg: &mut KnowledgeGraph)
    requires
        old(kg).wf(),
        old(kg).nodes().len() + baseline_views().len() < u32::MAX,
    ensures
        final(kg).wf(),
        final(kg).nodes().len() == old(kg).nodes().len() + baseline_views().len(),
        final(kg).nodes().take(old(kg).nodes().len() as int) == old(kg).nodes(),
        nodes_view(final(kg).nodes().skip(old(kg).nodes().len() as int)) == baseline_views(),
        final(kg).edges() == old(kg).edges(),
        final(kg).names() == index_names(old(kg).names(), final(kg).nodes().skip(old(kg).nodes().len() as int), old(kg).nodes().len() as int, baseline_views().len() as int),
        final(kg).mnemonics() == index_mnemonics(old(kg).mnemonics(), final(kg).nodes().skip(old(kg).nodes().len() as int), old(kg).nodes().len() as int, baseline_views().len() as int),
        final(kg).categories() == index_categories(old(kg).categories(), final(kg).nodes().skip(old(kg).nodes().len() as int), old(kg).nodes().len() as int, baseline_views().len() as int),
{
    let mut v = baseline_flags();
    let mut w = baseline_conventions();
    v.append(&mut w);
    let mut w = baseline_instructions();
    v.append(&mut w);
    let mut w = baseline_idioms();
    v.append(&mut w);
    let mut w = baseline_syscalls();
    v.append(&mut w);
    proof {
        assert(nodes_view(v@) =~= baseline_views());
    }
    let ghost all = v@;
    kg.add_nodes(v);
    proof {
        assert(kg.nodes().skip(old(kg).nodes().len() as int) =~= all);
        assert(kg.nodes().take(old(kg).nodes().len() as int) =~= old(kg).nodes());
    }
}

/// How many nodes the bundled knowledge holds.
pub fn baseline_count() -> (n: usize)
    ensures
        n == baseline_views().len(),
{
    36
}

} // verus!
