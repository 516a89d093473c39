//! Static ABI linter for x86_64 assembly (System V and Windows x64).
use vstd::prelude::*;
use crate::linter::common::{diag, bool_text, bool_text_exec, cut_at_char, cut_at_char_exec, cut_at_seq, cut_at_str_exec};
use crate::pattern::{captures, group, group_of, is_match, is_match_exec, regex_captures};
use crate::text::{
    append, append_str, chars_of, contains_str, contains_text, decimal, ends_with, ends_with_exec,
    eq_ignore_ascii_case, eq_ignore_ascii_case_exec, eq_str, fmt_i64, fmt_u64, fmt_u128, lines,
    parse_i64, parse_i64_exec, push_text, split_lines, starts_with, starts_with_exec,
    to_lowercase, to_uppercase, trim, trim_chars, unicode_lowercase, unicode_uppercase,
};
use crate::types::{make_diag, CallingConvention, Diag, LintDiagnostic, Severity, diags_view};

verus! {

pub const RE_PUSH: &'static str = r"(?i)^\s*push\s+([a-z0-9]+)";
pub const RE_POP: &'static str = r"(?i)^\s*pop\s+([a-z0-9]+)";
pub const RE_SUB_RSP: &'static str = r"(?i)^\s*sub\s+(rsp|esp),\s*(0x[0-9a-fA-F]+|\d+)";
pub const RE_ADD_RSP: &'static str = r"(?i)^\s*add\s+(rsp|esp),\s*(0x[0-9a-fA-F]+|\d+)";
pub const RE_CALL: &'static str = r"(?i)^\s*call\s+";
pub const RE_SYSCALL: &'static str = r"(?i)^\s*syscall\b";
pub const RE_MOV_ZERO: &'static str = r"(?i)^\s*mov\s+(rax|rbx|rcx|rdx|rsi|rdi|r[8-9]|r1[0-5]),\s*0\b";
pub const RE_MEM_IMM64: &'static str = r"(?i)^\s*mov\s+(qword\s*)?\[.+?\],\s*(0x[0-9a-fA-F]{9,16})";
pub const RE_DST_REG: &'static str = r"(?i)^\s*(mov|add|sub|xor|and|or|imul|shl|shr|sar|lea|inc|dec|neg|not)\s+([a-z0-9]+)\b";
pub const RE_STRING_INSN: &'static str = r"(?i)^\s*(stos[bwdq]?|lods[bwdq]?|movs[bwdq]?)";
pub const RE_IDIV_DIV_RDX: &'static str = r"(?i)^\s*(idiv|div)\s+(rdx|edx)\b";
pub const RE_IDIV_ANY: &'static str = r"(?i)^\s*idiv\s+([a-z0-9]+)\b";
pub const RE_WRITE_RDX: &'static str = r"(?i)^\s*(mov|xor|lea|add|sub|pop)\s+(rdx|edx)\b";
pub const RE_IMUL: &'static str = r"(?i)^\s*imul\b";
pub const RE_CHECK_OVERFLOW: &'static str = r"(?i)^\s*(jo|jno|into|seto)\b";
pub const RE_CMP_ZERO: &'static str = r"(?i)^\s*(test|cmp)\b.*,\s*(0|0x0)\b";
pub const RE_TEST_SELF: &'static str = r"(?i)^\s*test\s+([a-z0-9]+),\s*([a-z0-9]+)\b";
pub const RE_MOVAPS_MOVDQA: &'static str = r"(?i)^\s*(movaps|movdqa)\s+";
pub const RE_DST_XMM: &'static str = r"(?i)^\s*(mov[au]?p[sd]|movs[sd]|movdq[au]|mov[dq]|add[ps][sd]|sub[ps][sd]|mul[ps][sd]|div[ps][sd])\s+(xmm[6-9]|xmm1[0-5])\b";

pub const EXPL_VECTOR_ALIGN: &'static str = "Aligned vector memory operations ('movaps', 'movdqa') fault with #GP(0) if the address is not a multiple of 16. If working with arbitrary or unaligned pointers, prefer unaligned variants 'movups' / 'movdqu'.";
pub const EXPL_STACK_ALIGN: &'static str = "The x86-64 ABI strictly requires RSP to be a multiple of 16 immediately before executing a 'call'. Misalignment will cause crashes in libc, SSE/AVX vector instructions, or Windows API functions.";
pub const FIX_STACK_ALIGN: &'static str = "Adjust your stack allocation: e.g. change 'sub rsp, 8' to 'sub rsp, 16' or push an extra register/dummy value to align RSP.";
pub const EXPL_SHADOW: &'static str = "Microsoft x64 ABI mandates that the caller allocate at least 32 bytes (0x20) of 'shadow space' (home space) on the stack directly above the return address for the callee to spill RCX, RDX, R8, R9.";
pub const FIX_SHADOW: &'static str = "Add 'sub rsp, 32' (or 'sub rsp, 40' with 8-byte alignment) in function prologue and restore with 'add rsp, 32'/'add rsp, 40' before ret.";
pub const MSG_SYSCALL: &'static str = "Hardware 'syscall' instruction clobbers RCX (saves RIP) and R11 (saves RFLAGS).";
pub const EXPL_SYSCALL: &'static str = "If you are using RCX or R11 to hold data across a syscall, it will be destroyed. Also note that in Linux x86-64, the 4th syscall argument is passed in R10, NOT RCX.";
pub const FIX_SYSCALL: &'static str = "Pass the 4th argument in R10 instead of RCX, and do not expect RCX/R11 values to be preserved after syscall.";
pub const EXPL_IMM64: &'static str = "x86-64 has no opcode to move a 64-bit immediate directly into memory (only 32-bit sign-extended immediates are valid with memory destinations).";
pub const EXPL_ZERO: &'static str = "The CPU recognizes 'xor reg32, reg32' at register rename time as a zero-latency idiom with no execution port stalls and smaller encoded byte length.";
pub const MSG_IMUL: &'static str = "'imul' sets Overflow Flag (OF) on 64-bit integer overflow. No 'jo' check detected.";
pub const EXPL_IMUL: &'static str = "When multiplying inputs that may exceed 64-bit integers (~9.22e18), 'imul' silently wraps around and truncates high bits. Check the overflow flag using 'jo .overflow_handler' or use 128-bit 'mul'.";
pub const FIX_IMUL: &'static str = "Add 'jo .overflow_error' immediately following the multiplication to handle large numbers safely.";
pub const MSG_CQO: &'static str = "'cqo' sign-extends RAX into RDX, overwriting whatever RDX held.";
pub const MSG_CDQ: &'static str = "'cdq' sign-extends EAX into EDX, overwriting whatever EDX held.";
pub const EXPL_SIGN_EXT: &'static str = "RDX/EDX carries an integer argument in both x86-64 calling conventions and often holds a pointer; 'cqo'/'cdq' silently replace it with the sign bits of RAX/EAX.";
pub const FIX_SIGN_EXT: &'static str = "Copy RDX/EDX to another register before 'cqo'/'cdq' if its value is still needed.";
pub const MSG_IDIV: &'static str = "Signed integer division ('idiv') detected without divisor zero-check or overflow guard.";
pub const EXPL_IDIV: &'static str = "Dividing by 0 or dividing INT64_MIN (-9223372036854775808) by -1 triggers a fatal CPU Hardware Divide Error (#DE) exception. Always check divisor (e.g. 'test r10, r10; jz .zero_err') before 'idiv'.";
pub const FIX_IDIV: &'static str = "Test divisor register for zero and handle division-by-zero prior to executing 'idiv'.";
pub const EXPL_XMM: &'static str = "On Windows x64, XMM6 through XMM15 are non-volatile (callee-saved). Functions modifying them must save their 128-bit contents to stack and restore them before returning.";
pub const MSG_AVX: &'static str = "AVX instructions were used, but no 'vzeroupper' was detected before exit/calls.";
pub const EXPL_AVX: &'static str = "Failing to execute 'vzeroupper' when transitioning between 256/512-bit AVX code and legacy SSE or function returns causes severe microarchitectural state transition penalties (up to 70 clock cycles per subsequent SSE instruction).";
pub const FIX_AVX: &'static str = "Insert 'vzeroupper' before 'ret' or before calling non-AVX functions.";

/// `parse_imm`: a `0x`/`0X`-prefixed hexadecimal or a decimal `i64`, 0 when
/// it does not parse.
pub open spec fn parse_imm(s: Seq<char>) -> int {
    if starts_with(s, "0x"@) || starts_with(s, "0X"@) {
        match parse_i64(s.skip(2), 16) {
            Some(v) => v,
            None => 0,
        }
    } else {
        match parse_i64(s, 10) {
            Some(v) => v,
            None => 0,
        }
    }
}

pub fn parse_imm_exec(s: &Vec<char>) -> (v: i64)
    ensures
        v as int == parse_imm(s@),
{
    proof {
        reveal_strlit("0x");
        reveal_strlit("0X");
    }
    if starts_with_exec(s, &chars_of("0x")) || starts_with_exec(s, &chars_of("0X")) {
        let rest = crate::text::slice_chars(s, 2, s.len());
        proof {
            assert(rest@ =~= s@.skip(2));
        }
        match parse_i64_exec(&rest, 16) {
            Some(v) => v,
            None => 0,
        }
    } else {
        match parse_i64_exec(s, 10) {
            Some(v) => v,
            None => 0,
        }
    }
}

/// `canonical_reg`: the 64-bit register that a register name belongs to.
pub open spec fn canonical_reg(r: Seq<char>) -> Seq<char> {
    if r == "rax"@ || r == "eax"@ || r == "ax"@ || r == "al"@ || r == "ah"@ {
        "rax"@
    } else if r == "rbx"@ || r == "ebx"@ || r == "bx"@ || r == "bl"@ || r == "bh"@ {
        "rbx"@
    } else if r == "rcx"@ || r == "ecx"@ || r == "cx"@ || r == "cl"@ || r == "ch"@ {
        "rcx"@
    } else if r == "rdx"@ || r == "edx"@ || r == "dx"@ || r == "dl"@ || r == "dh"@ {
        "rdx"@
    } else if r == "rsi"@ || r == "esi"@ || r == "si"@ || r == "sil"@ {
        "rsi"@
    } else if r == "rdi"@ || r == "edi"@ || r == "di"@ || r == "dil"@ {
        "rdi"@
    } else if r == "rbp"@ || r == "ebp"@ || r == "bp"@ || r == "bpl"@ {
        "rbp"@
    } else if r == "rsp"@ || r == "esp"@ || r == "sp"@ || r == "spl"@ {
        "rsp"@
    } else if r == "r8"@ || r == "r8d"@ || r == "r8w"@ || r == "r8b"@ {
        "r8"@
    } else if r == "r9"@ || r == "r9d"@ || r == "r9w"@ || r == "r9b"@ {
        "r9"@
    } else if r == "r10"@ || r == "r10d"@ || r == "r10w"@ || r == "r10b"@ {
        "r10"@
    } else if r == "r11"@ || r == "r11d"@ || r == "r11w"@ || r == "r11b"@ {
        "r11"@
    } else if r == "r12"@ || r == "r12d"@ || r == "r12w"@ || r == "r12b"@ {
        "r12"@
    } else if r == "r13"@ || r == "r13d"@ || r == "r13w"@ || r == "r13b"@ {
        "r13"@
    } else if r == "r14"@ || r == "r14d"@ || r == "r14w"@ || r == "r14b"@ {
        "r14"@
    } else if r == "r15"@ || r == "r15d"@ || r == "r15w"@ || r == "r15b"@ {
        "r15"@
    } else {
        r
    }
}

fn eq_any(r: &Vec<char>, a: &str, b: &str, c: &str, d: &str) -> (res: bool)
    ensures
        res == (r@ == a@ || r@ == b@ || r@ == c@ || r@ == d@),
{
    eq_str(r, a) || eq_str(r, b) || eq_str(r, c) || eq_str(r, d)
}

pub fn canonical_reg_exec(r: Vec<char>) -> (res: Vec<char>)
    ensures
        res@ == canonical_reg(r@),
{
    if eq_any(&r, "rax", "eax", "ax", "al") || eq_str(&r, "ah") {
        chars_of("rax")
    } else if eq_any(&r, "rbx", "ebx", "bx", "bl") || eq_str(&r, "bh") {
        chars_of("rbx")
    } else if eq_any(&r, "rcx", "ecx", "cx", "cl") || eq_str(&r, "ch") {
        chars_of("rcx")
    } else if eq_any(&r, "rdx", "edx", "dx", "dl") || eq_str(&r, "dh") {
        chars_of("rdx")
    } else if eq_any(&r, "rsi", "esi", "si", "sil") {
        chars_of("rsi")
    } else if eq_any(&r, "rdi", "edi", "di", "dil") {
        chars_of("rdi")
    } else if eq_any(&r, "rbp", "ebp", "bp", "bpl") {
        chars_of("rbp")
    } else if eq_any(&r, "rsp", "esp", "sp", "spl") {
        chars_of("rsp")
    } else if eq_any(&r, "r8", "r8d", "r8w", "r8b") {
        chars_of("r8")
    } else if eq_any(&r, "r9", "r9d", "r9w", "r9b") {
        chars_of("r9")
    } else if eq_any(&r, "r10", "r10d", "r10w", "r10b") {
        chars_of("r10")
    } else if eq_any(&r, "r11", "r11d", "r11w", "r11b") {
        chars_of("r11")
    } else if eq_any(&r, "r12", "r12d", "r12w", "r12b") {
        chars_of("r12")
    } else if eq_any(&r, "r13", "r13d", "r13w", "r13b") {
        chars_of("r13")
    } else if eq_any(&r, "r14", "r14d", "r14w", "r14b") {
        chars_of("r14")
    } else if eq_any(&r, "r15", "r15d", "r15w", "r15b") {
        chars_of("r15")
    } else {
        r
    }
}

/// `to_32bit_subreg`: the 32-bit name of a 64-bit register.
pub open spec fn to_32bit_subreg(r: Seq<char>) -> Seq<char> {
    if r == "rax"@ {
        "eax"@
    } else if r == "rbx"@ {
        "ebx"@
    } else if r == "rcx"@ {
        "ecx"@
    } else if r == "rdx"@ {
        "edx"@
    } else if r == "rsi"@ {
        "esi"@
    } else if r == "rdi"@ {
        "edi"@
    } else if r == "rbp"@ {
        "ebp"@
    } else if r == "rsp"@ {
        "esp"@
    } else if r == "r8"@ {
        "r8d"@
    } else if r == "r9"@ {
        "r9d"@
    } else if r == "r10"@ {
        "r10d"@
    } else if r == "r11"@ {
        "r11d"@
    } else if r == "r12"@ {
        "r12d"@
    } else if r == "r13"@ {
        "r13d"@
    } else if r == "r14"@ {
        "r14d"@
    } else if r == "r15"@ {
        "r15d"@
    } else {
        r
    }
}

pub fn to_32bit_subreg_exec(r: &Vec<char>) -> (res: Vec<char>)
    ensures
        res@ == to_32bit_subreg(r@),
{
    if eq_str(r, "rax") {
        chars_of("eax")
    } else if eq_str(r, "rbx") {
        chars_of("ebx")
    } else if eq_str(r, "rcx") {
        chars_of("ecx")
    } else if eq_str(r, "rdx") {
        chars_of("edx")
    } else if eq_str(r, "rsi") {
        chars_of("esi")
    } else if eq_str(r, "rdi") {
        chars_of("edi")
    } else if eq_str(r, "rbp") {
        chars_of("ebp")
    } else if eq_str(r, "rsp") {
        chars_of("esp")
    } else if eq_str(r, "r8") {
        chars_of("r8d")
    } else if eq_str(r, "r9") {
        chars_of("r9d")
    } else if eq_str(r, "r10") {
        chars_of("r10d")
    } else if eq_str(r, "r11") {
        chars_of("r11d")
    } else if eq_str(r, "r12") {
        chars_of("r12d")
    } else if eq_str(r, "r13") {
        chars_of("r13d")
    } else if eq_str(r, "r14") {
        chars_of("r14d")
    } else if eq_str(r, "r15") {
        chars_of("r15d")
    } else {
        r.clone()
    }
}

/// The remainder of `a` by 16 with the sign of `a`, as Rust's `%` computes it.
pub open spec fn rem16(a: int) -> int {
    if a >= 0 {
        a % 16
    } else {
        -((-a) % 16)
    }
}

fn rem16_exec(a: i128) -> (r: i128)
    ensures
        r == rem16(a as int),
{
    if a >= 0 {
        a % 16
    } else {
        let m: i128 = if a == i128::MIN { 0 } else { (-a) % 16 };
        proof {
            if a == i128::MIN {
                assert((-(a as int)) % 16 == 0);
            }
        }
        -m
    }
}

/// The comment-free text of an x86_64 source line.
pub open spec fn x86_clean(line: Seq<char>) -> Seq<char> {
    cut_at_seq(cut_at_char(trim(line), ';'), "//"@)
}

/// Whether a cleaned x86_64 line carries no instruction.
pub open spec fn x86_skipped(t: Seq<char>) -> bool {
    t.len() == 0 || starts_with(t, "#"@) || ends_with(t, ":"@)
}

/// What the line recognisers report for one cleaned line.
pub struct X86Facts {
    pub lower: Seq<char>,
    pub push: Option<Seq<Seq<char>>>,
    pub pop: Option<Seq<Seq<char>>>,
    pub sub_rsp: Option<Seq<Seq<char>>>,
    pub add_rsp: Option<Seq<Seq<char>>>,
    pub call: bool,
    pub syscall: bool,
    pub mov_zero: Option<Seq<Seq<char>>>,
    pub mem_imm64: Option<Seq<Seq<char>>>,
    pub dst_reg: Option<Seq<Seq<char>>>,
    pub string_insn: Option<Seq<Seq<char>>>,
    pub idiv_div_rdx: Option<Seq<Seq<char>>>,
    pub idiv_any: bool,
    pub write_rdx: bool,
    pub imul: bool,
    pub check_overflow: bool,
    pub cmp_zero: bool,
    pub test_self: Option<Seq<Seq<char>>>,
    pub movaps: Option<Seq<Seq<char>>>,
    pub dst_xmm: Option<Seq<Seq<char>>>,
}

/// The recognisers' report for a cleaned line.
pub open spec fn x86_facts(t: Seq<char>) -> X86Facts {
    X86Facts {
        lower: unicode_lowercase(t),
        push: regex_captures(RE_PUSH@, t),
        pop: regex_captures(RE_POP@, t),
        sub_rsp: regex_captures(RE_SUB_RSP@, t),
        add_rsp: regex_captures(RE_ADD_RSP@, t),
        call: is_match(RE_CALL@, t),
        syscall: is_match(RE_SYSCALL@, t),
        mov_zero: regex_captures(RE_MOV_ZERO@, t),
        mem_imm64: regex_captures(RE_MEM_IMM64@, t),
        dst_reg: regex_captures(RE_DST_REG@, t),
        string_insn: regex_captures(RE_STRING_INSN@, t),
        idiv_div_rdx: regex_captures(RE_IDIV_DIV_RDX@, t),
        idiv_any: is_match(RE_IDIV_ANY@, t),
        write_rdx: is_match(RE_WRITE_RDX@, t),
        imul: is_match(RE_IMUL@, t),
        check_overflow: is_match(RE_CHECK_OVERFLOW@, t),
        cmp_zero: is_match(RE_CMP_ZERO@, t),
        test_self: regex_captures(RE_TEST_SELF@, t),
        movaps: regex_captures(RE_MOVAPS_MOVDQA@, t),
        dst_xmm: regex_captures(RE_DST_XMM@, t),
    }
}

/// The recognisers' report, as computed.
pub struct X86LineFacts {
    pub lower: Vec<char>,
    pub push: Option<Vec<Vec<char>>>,
    pub pop: Option<Vec<Vec<char>>>,
    pub sub_rsp: Option<Vec<Vec<char>>>,
    pub add_rsp: Option<Vec<Vec<char>>>,
    pub call: bool,
    pub syscall: bool,
    pub mov_zero: Option<Vec<Vec<char>>>,
    pub mem_imm64: Option<Vec<Vec<char>>>,
    pub dst_reg: Option<Vec<Vec<char>>>,
    pub string_insn: Option<Vec<Vec<char>>>,
    pub idiv_div_rdx: Option<Vec<Vec<char>>>,
    pub idiv_any: bool,
    pub write_rdx: bool,
    pub imul: bool,
    pub check_overflow: bool,
    pub cmp_zero: bool,
    pub test_self: Option<Vec<Vec<char>>>,
    pub movaps: Option<Vec<Vec<char>>>,
    pub dst_xmm: Option<Vec<Vec<char>>>,
}

impl View for X86LineFacts {
    type V = X86Facts;

    open spec fn view(&self) -> X86Facts {
        X86Facts {
            lower: self.lower@,
            push: self.push.deep_view(),
            pop: self.pop.deep_view(),
            sub_rsp: self.sub_rsp.deep_view(),
            add_rsp: self.add_rsp.deep_view(),
            call: self.call,
            syscall: self.syscall,
            mov_zero: self.mov_zero.deep_view(),
            mem_imm64: self.mem_imm64.deep_view(),
            dst_reg: self.dst_reg.deep_view(),
            string_insn: self.string_insn.deep_view(),
            idiv_div_rdx: self.idiv_div_rdx.deep_view(),
            idiv_any: self.idiv_any,
            write_rdx: self.write_rdx,
            imul: self.imul,
            check_overflow: self.check_overflow,
            cmp_zero: self.cmp_zero,
            test_self: self.test_self.deep_view(),
            movaps: self.movaps.deep_view(),
            dst_xmm: self.dst_xmm.deep_view(),
        }
    }
}

/// Runs the line recognisers over a cleaned line.
pub fn x86_line_facts(t: &Vec<char>) -> (f: X86LineFacts)
    ensures
        f@ == x86_facts(t@),
{
    X86LineFacts {
        lower: to_lowercase(t),
        push: captures(RE_PUSH, t),
        pop: captures(RE_POP, t),
        sub_rsp: captures(RE_SUB_RSP, t),
        add_rsp: captures(RE_ADD_RSP, t),
        call: is_match_exec(RE_CALL, t),
        syscall: is_match_exec(RE_SYSCALL, t),
        mov_zero: captures(RE_MOV_ZERO, t),
        mem_imm64: captures(RE_MEM_IMM64, t),
        dst_reg: captures(RE_DST_REG, t),
        string_insn: captures(RE_STRING_INSN, t),
        idiv_div_rdx: captures(RE_IDIV_DIV_RDX, t),
        idiv_any: is_match_exec(RE_IDIV_ANY, t),
        write_rdx: is_match_exec(RE_WRITE_RDX, t),
        imul: is_match_exec(RE_IMUL, t),
        check_overflow: is_match_exec(RE_CHECK_OVERFLOW, t),
        cmp_zero: is_match_exec(RE_CMP_ZERO, t),
        test_self: captures(RE_TEST_SELF, t),
        movaps: captures(RE_MOVAPS_MOVDQA, t),
        dst_xmm: captures(RE_DST_XMM, t),
    }
}

/// What the x86_64 linter has gathered after some lines.
pub struct X86State {
    pub stack_offset: int,
    pub shadow_space: int,
    pub pushed: Seq<Seq<char>>,
    pub popped: Seq<Seq<char>>,
    pub modified: Seq<Seq<char>>,
    pub used_avx: bool,
    pub has_vzeroupper: bool,
    pub last_cqo_line: Option<int>,
    pub last_cdq_line: Option<int>,
    pub had_imul: bool,
    pub checked_overflow: bool,
    pub imul_line: int,
    pub had_idiv: bool,
    pub idiv_line: int,
    pub had_div_guard: bool,
    pub modified_xmm: Seq<Seq<char>>,
    pub diags: Seq<Diag>,
}

/// The gathered state, as computed.
pub struct X86Scan {
    pub stack_offset: i128,
    pub shadow_space: i128,
    pub pushed: Vec<Vec<char>>,
    pub popped: Vec<Vec<char>>,
    pub modified: Vec<Vec<char>>,
    pub used_avx: bool,
    pub has_vzeroupper: bool,
    pub last_cqo_line: Option<usize>,
    pub last_cdq_line: Option<usize>,
    pub had_imul: bool,
    pub checked_overflow: bool,
    pub imul_line: usize,
    pub had_idiv: bool,
    pub idiv_line: usize,
    pub had_div_guard: bool,
    pub modified_xmm: Vec<Vec<char>>,
    pub diagnostics: Vec<LintDiagnostic>,
}

impl View for X86Scan {
    type V = X86State;

    open spec fn view(&self) -> X86State {
        X86State {
            stack_offset: self.stack_offset as int,
            shadow_space: self.shadow_space as int,
            pushed: self.pushed.deep_view(),
            popped: self.popped.deep_view(),
            modified: self.modified.deep_view(),
            used_avx: self.used_avx,
            has_vzeroupper: self.has_vzeroupper,
            last_cqo_line: match self.last_cqo_line {
                Some(l) => Some(l as int),
                None => None,
            },
            last_cdq_line: match self.last_cdq_line {
                Some(l) => Some(l as int),
                None => None,
            },
            had_imul: self.had_imul,
            checked_overflow: self.checked_overflow,
            imul_line: self.imul_line as int,
            had_idiv: self.had_idiv,
            idiv_line: self.idiv_line as int,
            had_div_guard: self.had_div_guard,
            modified_xmm: self.modified_xmm.deep_view(),
            diags: diags_view(self.diagnostics@),
        }
    }
}

/// The state before the first line: the return address leaves RSP at 8 mod 16.
pub open spec fn x86_initial() -> X86State {
    X86State {
        stack_offset: 8,
        shadow_space: 0,
        pushed: Seq::empty(),
        popped: Seq::empty(),
        modified: Seq::empty(),
        used_avx: false,
        has_vzeroupper: false,
        last_cqo_line: None,
        last_cdq_line: None,
        had_imul: false,
        checked_overflow: false,
        imul_line: 0,
        had_idiv: false,
        idiv_line: 0,
        had_div_guard: false,
        modified_xmm: Seq::empty(),
        diags: Seq::empty(),
    }
}

/// AVX use: a mnemonic starting with `v` other than `var`.
pub open spec fn x86_avx(s: X86State, f: X86Facts) -> X86State {
    if starts_with(f.lower, "v"@) && !starts_with(f.lower, "var"@) {
        X86State {
            used_avx: true,
            has_vzeroupper: s.has_vzeroupper || starts_with(f.lower, "vzeroupper"@),
            ..s
        }
    } else {
        s
    }
}

/// `push reg`: eight more bytes on the stack, and the register is saved.
pub open spec fn x86_push(s: X86State, f: X86Facts) -> X86State {
    match f.push {
        Some(c) => X86State {
            stack_offset: rem16(s.stack_offset + 8),
            pushed: s.pushed.push(unicode_lowercase(group(c, 1))),
            ..s
        },
        None => s,
    }
}

/// `pop reg`: eight bytes fewer, and the register is restored.
pub open spec fn x86_pop(s: X86State, f: X86Facts) -> X86State {
    match f.pop {
        Some(c) => X86State {
            stack_offset: rem16(s.stack_offset - 8 + 16),
            popped: s.popped.push(unicode_lowercase(group(c, 1))),
            ..s
        },
        None => s,
    }
}

/// `sub rsp, imm`: stack space allocated.
pub open spec fn x86_sub_rsp(s: X86State, f: X86Facts) -> X86State {
    match f.sub_rsp {
        Some(c) => {
            let v = parse_imm(group(c, 2));
            X86State {
                stack_offset: rem16(s.stack_offset + v),
                shadow_space: s.shadow_space + v,
                ..s
            }
        },
        None => s,
    }
}

/// `add rsp, imm`: stack space released.
pub open spec fn x86_add_rsp(s: X86State, f: X86Facts) -> X86State {
    match f.add_rsp {
        Some(c) => {
            let v = parse_imm(group(c, 2));
            X86State {
                stack_offset: rem16(s.stack_offset - rem16(v) + 16),
                shadow_space: s.shadow_space - v,
                ..s
            }
        },
        None => s,
    }
}

/// Stack bookkeeping for `push`, `pop`, `sub rsp` and `add rsp`, in that order.
pub open spec fn x86_stack(s: X86State, f: X86Facts) -> X86State {
    x86_add_rsp(x86_sub_rsp(x86_pop(x86_push(s, f), f), f), f)
}

/// Registers written by the line.
pub open spec fn x86_modified(s: X86State, f: X86Facts) -> X86State {
    let s1 = match f.dst_reg {
        Some(c) => X86State {
            modified: s.modified.push(canonical_reg(unicode_lowercase(group(c, 2)))),
            ..s
        },
        None => s,
    };
    match f.string_insn {
        Some(c) => {
            let p = unicode_lowercase(group(c, 1));
            if starts_with(p, "stos"@) {
                X86State { modified: s1.modified.push("rdi"@), ..s1 }
            } else if starts_with(p, "lods"@) {
                X86State { modified: s1.modified.push("rsi"@), ..s1 }
            } else if starts_with(p, "movs"@) {
                X86State { modified: s1.modified.push("rdi"@).push("rsi"@), ..s1 }
            } else {
                s1
            }
        },
        None => s1,
    }
}

/// Zero tests that guard a division.
pub open spec fn x86_guard(s: X86State, f: X86Facts) -> X86State {
    if f.cmp_zero {
        X86State { had_div_guard: true, ..s }
    } else {
        match f.test_self {
            Some(c) => if eq_ignore_ascii_case(group(c, 1), group(c, 2)) {
                X86State { had_div_guard: true, ..s }
            } else {
                s
            },
            None => s,
        }
    }
}

pub open spec fn vector_align_diag(ln: int, op: Seq<char>) -> Diag {
    diag(
        "VECTOR_ALIGNMENT_FAULT_RISK"@,
        Severity::Hint,
        ln,
        "'"@ + op + "' memory operand requires strict 16-byte alignment. Misalignment triggers #GP fault."@,
        EXPL_VECTOR_ALIGN@,
        "Replace '"@ + op + "' with '"@ + (if ends_with(unicode_lowercase(op), "ps"@) {
            "movups"@
        } else {
            "movdqu"@
        }) + "' if 16-byte alignment is not guaranteed."@,
    )
}

/// Aligned vector moves with a memory operand.
pub open spec fn x86_movaps(s: X86State, ln: int, t: Seq<char>, f: X86Facts) -> X86State {
    match f.movaps {
        Some(c) => if crate::text::find_char(t, '[') is Some {
            X86State { diags: s.diags.push(vector_align_diag(ln, group(c, 1))), ..s }
        } else {
            s
        },
        None => s,
    }
}

pub open spec fn stack_align_diag(ln: int, offset: int) -> Diag {
    diag(
        "STACK_ALIGNMENT_VIOLATION"@,
        Severity::Error,
        ln,
        "Stack pointer (RSP) is not 16-byte aligned before 'call' (current offset mod 16 = "@
            + decimal(offset) + ")."@,
        EXPL_STACK_ALIGN@,
        FIX_STACK_ALIGN@,
    )
}

pub open spec fn shadow_diag(ln: int, shadow: int) -> Diag {
    diag(
        "WINDOWS_SHADOW_SPACE_MISSING"@,
        Severity::Error,
        ln,
        "Calling a function in Windows x64 ABI without allocating 32-byte shadow space (currently allocated: "@
            + decimal(if shadow > 0 { shadow } else { 0 }) + " bytes)."@,
        EXPL_SHADOW@,
        FIX_SHADOW@,
    )
}

/// Checks made at a `call`: alignment, and shadow space on Windows x64.
pub open spec fn x86_call(abi: CallingConvention, s: X86State, ln: int, f: X86Facts) -> X86State {
    if f.call {
        let s1 = if rem16(s.stack_offset) != 0 {
            X86State { diags: s.diags.push(stack_align_diag(ln, s.stack_offset)), ..s }
        } else {
            s
        };
        if abi == CallingConvention::Windows_X64 && s1.shadow_space < 32 {
            X86State { diags: s1.diags.push(shadow_diag(ln, s1.shadow_space)), ..s1 }
        } else {
            s1
        }
    } else {
        s
    }
}

pub open spec fn syscall_diag(ln: int) -> Diag {
    diag(
        "SYSCALL_REGISTER_CLOBBER_NOTICE"@,
        Severity::Info,
        ln,
        MSG_SYSCALL@,
        EXPL_SYSCALL@,
        FIX_SYSCALL@,
    )
}

pub open spec fn imm64_diag(ln: int, imm: Seq<char>) -> Diag {
    diag(
        "INVALID_64BIT_IMM_MEM_WRITE"@,
        Severity::Error,
        ln,
        "Invalid x86-64 instruction: Cannot write 64-bit immediate '"@ + imm
            + "' directly to memory."@,
        EXPL_IMM64@,
        "Load immediate into a register first: 'mov rax, "@ + imm
            + "' followed by 'mov [dest], rax'."@,
    )
}

pub open spec fn zero_idiom_diag(ln: int, reg: Seq<char>) -> Diag {
    let sub = to_32bit_subreg(unicode_lowercase(reg));
    diag(
        "ZERO_LATENCY_IDIOM_SUGGESTION"@,
        Severity::Hint,
        ln,
        "'mov "@ + reg + ", 0' is inefficient. Prefer 'xor "@ + sub + ", "@ + sub
            + "' instead."@,
        EXPL_ZERO@,
        "xor "@ + sub + ", "@ + sub,
    )
}

/// `syscall` notices, 64-bit immediate stores and `mov reg, 0`.
pub open spec fn x86_notes(s: X86State, ln: int, f: X86Facts) -> X86State {
    let s1 = if f.syscall {
        X86State { diags: s.diags.push(syscall_diag(ln)), ..s }
    } else {
        s
    };
    let s2 = match f.mem_imm64 {
        Some(c) => X86State { diags: s1.diags.push(imm64_diag(ln, group(c, 2))), ..s1 },
        None => s1,
    };
    match f.mov_zero {
        Some(c) => X86State { diags: s2.diags.push(zero_idiom_diag(ln, group(c, 1))), ..s2 },
        None => s2,
    }
}

pub open spec fn cqo_diag(ln: int, op: Seq<char>, reg: Seq<char>, helper: Seq<char>, prev: int) -> Diag {
    diag(
        "CQO_CLOBBERS_DIVISOR_ERROR"@,
        Severity::Error,
        ln,
        "'"@ + op + " "@ + reg + "' divides by register '"@ + unicode_uppercase(reg)
            + "' which was clobbered by '"@ + helper + "' on line "@ + decimal(prev) + "."@,
        "'"@ + helper + "' sign-extends the dividend into "@ + unicode_uppercase(reg)
            + " (overwriting it with the sign bit, usually 0). Executing '"@ + op + " "@ + reg
            + "' immediately afterward will trigger a fatal Hardware Divide Error (#DE)."@,
        "Move the divisor to another register (e.g. 'mov r8, "@ + reg + "') before '"@ + helper
            + "', then execute '"@ + op + " r8'."@,
    )
}

/// `cqo`/`cdq` tracking: each writes RDX, as does any other write to RDX.
/// The warning that `cqo` or `cdq` overwrote RDX or EDX.
pub open spec fn sign_ext_diag(ln: int, msg: Seq<char>) -> Diag {
    diag("DESTRUCTIVE_SIGN_EXTENSION"@, Severity::Warning, ln, msg, EXPL_SIGN_EXT@, FIX_SIGN_EXT@)
}

pub open spec fn x86_cqo_track(s: X86State, ln: int, f: X86Facts) -> X86State {
    if f.lower == "cqo"@ {
        X86State { last_cqo_line: Some(ln), diags: s.diags.push(sign_ext_diag(ln, MSG_CQO@)), ..s }
    } else if f.lower == "cdq"@ {
        X86State { last_cdq_line: Some(ln), diags: s.diags.push(sign_ext_diag(ln, MSG_CDQ@)), ..s }
    } else if f.write_rdx {
        X86State { last_cqo_line: None, last_cdq_line: None, ..s }
    } else {
        s
    }
}

/// A division by the register that the last `cqo`/`cdq` clobbered.
pub open spec fn x86_cqo_check(s: X86State, ln: int, f: X86Facts) -> X86State {
    match f.idiv_div_rdx {
        Some(c) => {
            let op = unicode_uppercase(group(c, 1));
            let reg = unicode_lowercase(group(c, 2));
            if reg == "rdx"@ && s.last_cqo_line is Some {
                X86State {
                    diags: s.diags.push(cqo_diag(ln, op, reg, "CQO"@, s.last_cqo_line->0)),
                    ..s
                }
            } else if reg == "edx"@ && s.last_cdq_line is Some {
                X86State {
                    diags: s.diags.push(cqo_diag(ln, op, reg, "CDQ"@, s.last_cdq_line->0)),
                    ..s
                }
            } else {
                s
            }
        },
        None => s,
    }
}

/// `cqo`/`cdq` tracking, and a division by the register they clobbered.
pub open spec fn x86_cqo(s: X86State, ln: int, f: X86Facts) -> X86State {
    x86_cqo_check(x86_cqo_track(s, ln, f), ln, f)
}

/// `imul`, `idiv`, overflow checks and callee-saved XMM writes.
pub open spec fn x86_flags(s: X86State, ln: int, f: X86Facts) -> X86State {
    let s1 = if f.imul {
        X86State { had_imul: true, imul_line: ln, ..s }
    } else {
        s
    };
    let s2 = if f.idiv_any {
        X86State { had_idiv: true, idiv_line: ln, ..s1 }
    } else {
        s1
    };
    let s3 = if f.check_overflow {
        X86State { checked_overflow: true, ..s2 }
    } else {
        s2
    };
    match f.dst_xmm {
        Some(c) => {
            let x = unicode_lowercase(group(c, 2));
            if s3.modified_xmm.contains(x) {
                s3
            } else {
                X86State { modified_xmm: s3.modified_xmm.push(x), ..s3 }
            }
        },
        None => s3,
    }
}

/// One cleaned, non-empty line `t` at line number `ln`.
pub open spec fn x86_step(abi: CallingConvention, s: X86State, ln: int, t: Seq<char>, f: X86Facts) -> X86State {
    let s1 = x86_avx(s, f);
    let s2 = x86_stack(s1, f);
    let s3 = x86_modified(s2, f);
    let s4 = x86_guard(s3, f);
    let s5 = x86_movaps(s4, ln, t, f);
    let s6 = x86_call(abi, s5, ln, f);
    let s7 = x86_notes(s6, ln, f);
    let s8 = x86_cqo(s7, ln, f);
    x86_flags(s8, ln, f)
}

/// The state after the first `k` lines.
pub open spec fn x86_scan(abi: CallingConvention, ls: Seq<Seq<char>>, k: int) -> X86State
    decreases k,
{
    if k <= 0 || k > ls.len() {
        x86_initial()
    } else {
        let s = x86_scan(abi, ls, k - 1);
        let t = x86_clean(ls[k - 1]);
        if x86_skipped(t) {
            s
        } else {
            x86_step(abi, s, k, t, x86_facts(t))
        }
    }
}

pub open spec fn imul_diag(ln: int) -> Diag {
    diag("UNCHECKED_ARITHMETIC_OVERFLOW"@, Severity::Warning, ln, MSG_IMUL@, EXPL_IMUL@, FIX_IMUL@)
}

pub open spec fn idiv_diag(ln: int) -> Diag {
    diag("UNCHECKED_IDIV_OVERFLOW"@, Severity::Error, ln, MSG_IDIV@, EXPL_IDIV@, FIX_IDIV@)
}

pub open spec fn xmm_diag(ln: int, x: Seq<char>) -> Diag {
    diag(
        "CALLEE_SAVED_XMM_CLOBBERED"@,
        Severity::Warning,
        ln,
        "Vector register '"@ + unicode_uppercase(x)
            + "' is callee-saved on Windows x64 and was modified without being saved."@,
        EXPL_XMM@,
        "Save to stack with 'movaps [rsp + offset], "@ + x + "' in prologue and restore before ret."@,
    )
}

pub open spec fn clobber_diag(abi: CallingConvention, ln: int, reg: Seq<char>, saved: bool, restored: bool) -> Diag {
    diag(
        "CALLEE_SAVED_REGISTER_CLOBBERED"@,
        Severity::Error,
        ln,
        "Callee-saved register '"@ + reg + "' was modified but not properly preserved (saved="@
            + bool_text(saved) + ", restored="@ + bool_text(restored) + ")."@,
        "According to "@ + abi.debug_name() + ", the caller expects '"@ + reg
            + "' to remain unchanged across function calls. Clobbering it will corrupt the caller's state."@,
        "Add 'push "@ + reg + "' in function prologue and 'pop "@ + reg + "' before ret."@,
    )
}

pub open spec fn avx_diag(ln: int) -> Diag {
    diag("AVX_SSE_TRANSITION_PENALTY"@, Severity::Warning, ln, MSG_AVX@, EXPL_AVX@, FIX_AVX@)
}

/// The callee-saved general-purpose registers of a convention.
pub open spec fn x86_callee_saved(abi: CallingConvention) -> Seq<Seq<char>> {
    if abi == CallingConvention::Windows_X64 {
        seq!["rbx"@, "rbp"@, "rdi"@, "rsi"@, "r12"@, "r13"@, "r14"@, "r15"@]
    } else {
        seq!["rbx"@, "rbp"@, "r12"@, "r13"@, "r14"@, "r15"@]
    }
}

/// One diagnostic per callee-saved XMM register that was written.
pub open spec fn xmm_diags(xs: Seq<Seq<char>>, ln: int) -> Seq<Diag>
    decreases xs.len(),
{
    if xs.len() == 0 {
        Seq::empty()
    } else {
        xmm_diags(xs.drop_last(), ln).push(xmm_diag(ln, xs.last()))
    }
}

/// Diagnostics for the callee-saved registers `regs` that were written
/// without a `push` and a `pop`.
pub open spec fn clobber_diags(
    abi: CallingConvention,
    pushed: Seq<Seq<char>>,
    popped: Seq<Seq<char>>,
    modified: Seq<Seq<char>>,
    regs: Seq<Seq<char>>,
    ln: int,
) -> Seq<Diag>
    decreases regs.len(),
{
    if regs.len() == 0 {
        Seq::empty()
    } else {
        let rest = clobber_diags(abi, pushed, popped, modified, regs.drop_last(), ln);
        let r = regs.last();
        let saved = pushed.contains(r);
        let restored = popped.contains(r);
        if modified.contains(r) && (!saved || !restored) {
            rest.push(clobber_diag(abi, ln, r, saved, restored))
        } else {
            rest
        }
    }
}

/// The diagnostics emitted after the last of `n` lines.
pub open spec fn x86_final_diags(abi: CallingConvention, s: X86State, n: int) -> Seq<Diag> {
    let d1 = if s.had_imul && !s.checked_overflow {
        seq![imul_diag(s.imul_line)]
    } else {
        Seq::empty()
    };
    let d2 = if s.had_idiv && !s.had_div_guard {
        seq![idiv_diag(s.idiv_line)]
    } else {
        Seq::empty()
    };
    let d3 = if abi == CallingConvention::Windows_X64 {
        xmm_diags(s.modified_xmm, n)
    } else {
        Seq::empty()
    };
    let d4 = clobber_diags(abi, s.pushed, s.popped, s.modified, x86_callee_saved(abi), n);
    let d5 = if s.used_avx && !s.has_vzeroupper {
        seq![avx_diag(n)]
    } else {
        Seq::empty()
    };
    d1 + d2 + d3 + d4 + d5
}

/// What the x86_64 linter reports for a source text.
pub open spec fn x86_lint(abi: CallingConvention, code: Seq<char>) -> Seq<Diag> {
    let ls = lines(code);
    let s = x86_scan(abi, ls, ls.len() as int);
    s.diags + x86_final_diags(abi, s, ls.len() as int)
}


/// The bounds that keep the running sums within `i128` after `k` lines.
pub open spec fn x86_bounded(s: X86State, k: int) -> bool {
    &&& -16 < s.stack_offset < 16
    &&& -k * 0x1_0000_0000_0000_0000 <= s.shadow_space <= k * 0x1_0000_0000_0000_0000
}

proof fn lemma_x86_bounded_grows(s: X86State, k: int)
    requires
        x86_bounded(s, k),
        0 <= k,
    ensures
        x86_bounded(s, k + 1),
{
    assert(k * 0x1_0000_0000_0000_0000 <= (k + 1) * 0x1_0000_0000_0000_0000) by (nonlinear_arith)
        requires
            0 <= k,
    ;
}

/// The scan state before the first line.
pub fn x86_scan_start() -> (st: X86Scan)
    ensures
        st@ == x86_initial(),
{
    let st = X86Scan {
        stack_offset: 8,
        shadow_space: 0,
        pushed: Vec::new(),
        popped: Vec::new(),
        modified: Vec::new(),
        used_avx: false,
        has_vzeroupper: false,
        last_cqo_line: None,
        last_cdq_line: None,
        had_imul: false,
        checked_overflow: false,
        imul_line: 0,
        had_idiv: false,
        idiv_line: 0,
        had_div_guard: false,
        modified_xmm: Vec::new(),
        diagnostics: Vec::new(),
    };
    proof {
        assert(st@.pushed =~= Seq::<Seq<char>>::empty());
        assert(st@.popped =~= Seq::<Seq<char>>::empty());
        assert(st@.modified =~= Seq::<Seq<char>>::empty());
        assert(st@.modified_xmm =~= Seq::<Seq<char>>::empty());
        assert(st@.diags =~= Seq::<Diag>::empty());
    }
    st
}

fn x86_exec_avx(st: &mut X86Scan, f: &X86LineFacts)
    ensures
        final(st)@ == x86_avx(old(st)@, f@),
{
    if starts_with_exec(&f.lower, &chars_of("v")) && !starts_with_exec(&f.lower, &chars_of("var")) {
        st.used_avx = true;
        if starts_with_exec(&f.lower, &chars_of("vzeroupper")) {
            st.has_vzeroupper = true;
        }
    }
}

fn x86_exec_push(st: &mut X86Scan, f: &X86LineFacts)
    requires
        -16 < old(st).stack_offset < 16,
    ensures
        final(st)@ == x86_push(old(st)@, f@),
        -16 < final(st).stack_offset < 16,
{
    match &f.push {
        Some(c) => {
            let r = to_lowercase(&group_of(c, 1));
            st.stack_offset = rem16_exec(st.stack_offset + 8);
            push_text(&mut st.pushed, r);
        },
        None => {},
    }
}

fn x86_exec_pop(st: &mut X86Scan, f: &X86LineFacts)
    requires
        -16 < old(st).stack_offset < 16,
    ensures
        final(st)@ == x86_pop(old(st)@, f@),
        -16 < final(st).stack_offset < 16,
{
    match &f.pop {
        Some(c) => {
            let r = to_lowercase(&group_of(c, 1));
            st.stack_offset = rem16_exec(st.stack_offset - 8 + 16);
            push_text(&mut st.popped, r);
        },
        None => {},
    }
}

fn x86_exec_sub_rsp(st: &mut X86Scan, f: &X86LineFacts, Ghost(k): Ghost<int>)
    requires
        x86_bounded(old(st)@, k),
        0 <= k < 0x8000_0000_0000_0000,
    ensures
        final(st)@ == x86_sub_rsp(old(st)@, f@),
        -16 < final(st).stack_offset < 16,
        -k * 0x1_0000_0000_0000_0000 - 0x8000_0000_0000_0000 <= final(st).shadow_space,
        final(st).shadow_space <= k * 0x1_0000_0000_0000_0000 + 0x8000_0000_0000_0000,
{
    proof {
        assert(k * 0x1_0000_0000_0000_0000 <= 0x7fff_ffff_ffff_ffff * 0x1_0000_0000_0000_0000) by (nonlinear_arith)
            requires
                0 <= k < 0x8000_0000_0000_0000,
        ;
    }
    match &f.sub_rsp {
        Some(c) => {
            let v = parse_imm_exec(&group_of(c, 2));
            st.stack_offset = rem16_exec(st.stack_offset + v as i128);
            st.shadow_space = st.shadow_space + v as i128;
        },
        None => {},
    }
}

fn x86_exec_add_rsp(st: &mut X86Scan, f: &X86LineFacts, Ghost(k): Ghost<int>)
    requires
        -16 < old(st).stack_offset < 16,
        -k * 0x1_0000_0000_0000_0000 - 0x8000_0000_0000_0000 <= old(st).shadow_space,
        old(st).shadow_space <= k * 0x1_0000_0000_0000_0000 + 0x8000_0000_0000_0000,
        0 <= k,
        k + 1 < 0x8000_0000_0000_0000,
    ensures
        final(st)@ == x86_add_rsp(old(st)@, f@),
        x86_bounded(final(st)@, k + 1),
{
    proof {
        assert(k * 0x1_0000_0000_0000_0000 <= 0x7fff_ffff_ffff_fffe * 0x1_0000_0000_0000_0000) by (nonlinear_arith)
            requires
                0 <= k,
                k + 1 < 0x8000_0000_0000_0000,
        ;
        assert((k + 1) * 0x1_0000_0000_0000_0000 == k * 0x1_0000_0000_0000_0000 + 0x1_0000_0000_0000_0000) by (nonlinear_arith);
    }
    match &f.add_rsp {
        Some(c) => {
            let v = parse_imm_exec(&group_of(c, 2));
            let r = rem16_exec(v as i128);
            st.stack_offset = rem16_exec(st.stack_offset - r + 16);
            st.shadow_space = st.shadow_space - v as i128;
        },
        None => {},
    }
}

fn x86_exec_stack(st: &mut X86Scan, f: &X86LineFacts, Ghost(k): Ghost<int>)
    requires
        x86_bounded(old(st)@, k),
        0 <= k,
        k + 1 < 0x8000_0000_0000_0000,
    ensures
        final(st)@ == x86_stack(old(st)@, f@),
        x86_bounded(final(st)@, k + 1),
{
    x86_exec_push(st, f);
    x86_exec_pop(st, f);
    x86_exec_sub_rsp(st, f, Ghost(k));
    x86_exec_add_rsp(st, f, Ghost(k));
}

fn x86_exec_modified(st: &mut X86Scan, f: &X86LineFacts)
    ensures
        final(st)@ == x86_modified(old(st)@, f@),
{
    match &f.dst_reg {
        Some(c) => {
            let r = to_lowercase(&group_of(c, 2));
            push_text(&mut st.modified, canonical_reg_exec(r));
        },
        None => {},
    }
    match &f.string_insn {
        Some(c) => {
            let p = to_lowercase(&group_of(c, 1));
            if starts_with_exec(&p, &chars_of("stos")) {
                push_text(&mut st.modified, chars_of("rdi"));
            } else if starts_with_exec(&p, &chars_of("lods")) {
                push_text(&mut st.modified, chars_of("rsi"));
            } else if starts_with_exec(&p, &chars_of("movs")) {
                push_text(&mut st.modified, chars_of("rdi"));
                push_text(&mut st.modified, chars_of("rsi"));
            }
        },
        None => {},
    }
}

fn x86_exec_guard(st: &mut X86Scan, f: &X86LineFacts)
    ensures
        final(st)@ == x86_guard(old(st)@, f@),
{
    if f.cmp_zero {
        st.had_div_guard = true;
    } else {
        match &f.test_self {
            Some(c) => {
                if eq_ignore_ascii_case_exec(&group_of(c, 1), &group_of(c, 2)) {
                    st.had_div_guard = true;
                }
            },
            None => {},
        }
    }
}

fn vector_align_diag_exec(ln: usize, op: &Vec<char>) -> (d: LintDiagnostic)
    ensures
        d@ == vector_align_diag(ln as int, op@),
{
    let mut m = chars_of("'");
    append(&mut m, op);
    append_str(&mut m, "' memory operand requires strict 16-byte alignment. Misalignment triggers #GP fault.");
    let e = chars_of(EXPL_VECTOR_ALIGN);
    let lo = to_lowercase(op);
    let mut fx = chars_of("Replace '");
    append(&mut fx, op);
    append_str(&mut fx, "' with '");
    if ends_with_exec(&lo, &chars_of("ps")) {
        append_str(&mut fx, "movups");
    } else {
        append_str(&mut fx, "movdqu");
    }
    append_str(&mut fx, "' if 16-byte alignment is not guaranteed.");
    make_diag("VECTOR_ALIGNMENT_FAULT_RISK", Severity::Hint, ln, &m, &e, &fx)
}

fn x86_exec_movaps(st: &mut X86Scan, ln: usize, t: &Vec<char>, f: &X86LineFacts)
    ensures
        final(st)@ == x86_movaps(old(st)@, ln as int, t@, f@),
{
    match &f.movaps {
        Some(c) => {
            if crate::text::find_char_in(t, '[').is_some() {
                let d = vector_align_diag_exec(ln, &group_of(c, 1));
                crate::types::push_diag(&mut st.diagnostics, d);
            }
        },
        None => {},
    }
}

fn stack_align_diag_exec(ln: usize, offset: i128) -> (d: LintDiagnostic)
    requires
        -16 < offset < 16,
    ensures
        d@ == stack_align_diag(ln as int, offset as int),
{
    let mut m = chars_of("Stack pointer (RSP) is not 16-byte aligned before 'call' (current offset mod 16 = ");
    append(&mut m, &fmt_i64(offset as i64));
    append_str(&mut m, ").");
    make_diag(
        "STACK_ALIGNMENT_VIOLATION",
        Severity::Error,
        ln,
        &m,
        &chars_of(EXPL_STACK_ALIGN),
        &chars_of(FIX_STACK_ALIGN),
    )
}

fn shadow_diag_exec(ln: usize, shadow: i128) -> (d: LintDiagnostic)
    ensures
        d@ == shadow_diag(ln as int, shadow as int),
{
    let mut m = chars_of("Calling a function in Windows x64 ABI without allocating 32-byte shadow space (currently allocated: ");
    let shown: i128 = if shadow > 0 { shadow } else { 0 };
    append(&mut m, &fmt_u128(shown as u128));
    append_str(&mut m, " bytes).");
    make_diag(
        "WINDOWS_SHADOW_SPACE_MISSING",
        Severity::Error,
        ln,
        &m,
        &chars_of(EXPL_SHADOW),
        &chars_of(FIX_SHADOW),
    )
}

fn x86_exec_call(abi: CallingConvention, st: &mut X86Scan, ln: usize, f: &X86LineFacts)
    requires
        -16 < old(st).stack_offset < 16,
    ensures
        final(st)@ == x86_call(abi, old(st)@, ln as int, f@),
        final(st).stack_offset == old(st).stack_offset,
        final(st).shadow_space == old(st).shadow_space,
{
    if f.call {
        if rem16_exec(st.stack_offset) != 0 {
            let d = stack_align_diag_exec(ln, st.stack_offset);
            crate::types::push_diag(&mut st.diagnostics, d);
        }
        if abi == CallingConvention::Windows_X64 && st.shadow_space < 32 {
            let d = shadow_diag_exec(ln, st.shadow_space);
            crate::types::push_diag(&mut st.diagnostics, d);
        }
    }
}

fn imm64_diag_exec(ln: usize, imm: &Vec<char>) -> (d: LintDiagnostic)
    ensures
        d@ == imm64_diag(ln as int, imm@),
{
    let mut m = chars_of("Invalid x86-64 instruction: Cannot write 64-bit immediate '");
    append(&mut m, imm);
    append_str(&mut m, "' directly to memory.");
    let mut fx = chars_of("Load immediate into a register first: 'mov rax, ");
    append(&mut fx, imm);
    append_str(&mut fx, "' followed by 'mov [dest], rax'.");
    make_diag("INVALID_64BIT_IMM_MEM_WRITE", Severity::Error, ln, &m, &chars_of(EXPL_IMM64), &fx)
}

fn zero_idiom_diag_exec(ln: usize, reg: &Vec<char>) -> (d: LintDiagnostic)
    ensures
        d@ == zero_idiom_diag(ln as int, reg@),
{
    let sub = to_32bit_subreg_exec(&to_lowercase(reg));
    let mut m = chars_of("'mov ");
    append(&mut m, reg);
    append_str(&mut m, ", 0' is inefficient. Prefer 'xor ");
    append(&mut m, &sub);
    append_str(&mut m, ", ");
    append(&mut m, &sub);
    append_str(&mut m, "' instead.");
    let mut fx = chars_of("xor ");
    append(&mut fx, &sub);
    append_str(&mut fx, ", ");
    append(&mut fx, &sub);
    make_diag("ZERO_LATENCY_IDIOM_SUGGESTION", Severity::Hint, ln, &m, &chars_of(EXPL_ZERO), &fx)
}

fn x86_exec_notes(st: &mut X86Scan, ln: usize, f: &X86LineFacts)
    ensures
        final(st)@ == x86_notes(old(st)@, ln as int, f@),
{
    if f.syscall {
        let d = make_diag(
            "SYSCALL_REGISTER_CLOBBER_NOTICE",
            Severity::Info,
            ln,
            &chars_of(MSG_SYSCALL),
            &chars_of(EXPL_SYSCALL),
            &chars_of(FIX_SYSCALL),
        );
        crate::types::push_diag(&mut st.diagnostics, d);
    }
    match &f.mem_imm64 {
        Some(c) => {
            let d = imm64_diag_exec(ln, &group_of(c, 2));
            crate::types::push_diag(&mut st.diagnostics, d);
        },
        None => {},
    }
    match &f.mov_zero {
        Some(c) => {
            let d = zero_idiom_diag_exec(ln, &group_of(c, 1));
            crate::types::push_diag(&mut st.diagnostics, d);
        },
        None => {},
    }
}

fn cqo_diag_exec(ln: usize, op: &Vec<char>, reg: &Vec<char>, helper: &str, prev: usize) -> (d: LintDiagnostic)
    ensures
        d@ == cqo_diag(ln as int, op@, reg@, helper@, prev as int),
{
    let up = to_uppercase(reg);
    let mut m = chars_of("'");
    append(&mut m, op);
    append_str(&mut m, " ");
    append(&mut m, reg);
    append_str(&mut m, "' divides by register '");
    append(&mut m, &up);
    append_str(&mut m, "' which was clobbered by '");
    append_str(&mut m, helper);
    append_str(&mut m, "' on line ");
    append(&mut m, &fmt_u64(prev as u64));
    append_str(&mut m, ".");
    let mut e = chars_of("'");
    append_str(&mut e, helper);
    append_str(&mut e, "' sign-extends the dividend into ");
    append(&mut e, &up);
    append_str(&mut e, " (overwriting it with the sign bit, usually 0). Executing '");
    append(&mut e, op);
    append_str(&mut e, " ");
    append(&mut e, reg);
    append_str(&mut e, "' immediately afterward will trigger a fatal Hardware Divide Error (#DE).");
    let mut fx = chars_of("Move the divisor to another register (e.g. 'mov r8, ");
    append(&mut fx, reg);
    append_str(&mut fx, "') before '");
    append_str(&mut fx, helper);
    append_str(&mut fx, "', then execute '");
    append(&mut fx, op);
    append_str(&mut fx, " r8'.");
    make_diag("CQO_CLOBBERS_DIVISOR_ERROR", Severity::Error, ln, &m, &e, &fx)
}

fn x86_exec_cqo_track(st: &mut X86Scan, ln: usize, f: &X86LineFacts)
    ensures
        final(st)@ == x86_cqo_track(old(st)@, ln as int, f@),
{
    if eq_str(&f.lower, "cqo") {
        st.last_cqo_line = Some(ln);
        let d = make_diag("DESTRUCTIVE_SIGN_EXTENSION", Severity::Warning, ln, &chars_of(MSG_CQO), &chars_of(EXPL_SIGN_EXT), &chars_of(FIX_SIGN_EXT));
        crate::types::push_diag(&mut st.diagnostics, d);
    } else if eq_str(&f.lower, "cdq") {
        st.last_cdq_line = Some(ln);
        let d = make_diag("DESTRUCTIVE_SIGN_EXTENSION", Severity::Warning, ln, &chars_of(MSG_CDQ), &chars_of(EXPL_SIGN_EXT), &chars_of(FIX_SIGN_EXT));
        crate::types::push_diag(&mut st.diagnostics, d);
    } else if f.write_rdx {
        st.last_cqo_line = None;
        st.last_cdq_line = None;
    }
}

fn x86_exec_cqo_check(st: &mut X86Scan, ln: usize, f: &X86LineFacts)
    ensures
        final(st)@ == x86_cqo_check(old(st)@, ln as int, f@),
{
    proof {
        reveal_strlit("CQO");
        reveal_strlit("CDQ");
    }
    match &f.idiv_div_rdx {
        Some(c) => {
            let op = to_uppercase(&group_of(c, 1));
            let reg = to_lowercase(&group_of(c, 2));
            if eq_str(&reg, "rdx") && st.last_cqo_line.is_some() {
                let prev = st.last_cqo_line.unwrap();
                let d = cqo_diag_exec(ln, &op, &reg, "CQO", prev);
                crate::types::push_diag(&mut st.diagnostics, d);
            } else if eq_str(&reg, "edx") && st.last_cdq_line.is_some() {
                let prev = st.last_cdq_line.unwrap();
                let d = cqo_diag_exec(ln, &op, &reg, "CDQ", prev);
                crate::types::push_diag(&mut st.diagnostics, d);
            }
        },
        None => {},
    }
}

fn x86_exec_cqo(st: &mut X86Scan, ln: usize, f: &X86LineFacts)
    ensures
        final(st)@ == x86_cqo(old(st)@, ln as int, f@),
{
    x86_exec_cqo_track(st, ln, f);
    x86_exec_cqo_check(st, ln, f);
}

fn x86_exec_flags(st: &mut X86Scan, ln: usize, f: &X86LineFacts)
    ensures
        final(st)@ == x86_flags(old(st)@, ln as int, f@),
{
    if f.imul {
        st.had_imul = true;
        st.imul_line = ln;
    }
    if f.idiv_any {
        st.had_idiv = true;
        st.idiv_line = ln;
    }
    if f.check_overflow {
        st.checked_overflow = true;
    }
    match &f.dst_xmm {
        Some(c) => {
            let x = to_lowercase(&group_of(c, 2));
            if !contains_text(&st.modified_xmm, &x) {
                push_text(&mut st.modified_xmm, x);
            }
        },
        None => {},
    }
}

/// Applies one cleaned, non-empty line to the gathered state.
/// One cleaned line `t`, numbered `ln` (from 1), whose recognisers reported
/// `f`: the scan state after it.
#[verifier::spinoff_prover]
#[verifier::rlimit(40)]
pub fn x86_scan_line(
    abi: CallingConvention,
    st: &mut X86Scan,
    ln: usize,
    t: &Vec<char>,
    f: &X86LineFacts,
)
    requires
        1 <= ln < 0x8000_0000_0000_0000,
        x86_bounded(old(st)@, ln - 1),
    ensures
        final(st)@ == x86_step(abi, old(st)@, ln as int, t@, f@),
        x86_bounded(final(st)@, ln as int),
{
    let ghost k: int = ln - 1;
    x86_exec_avx(st, f);
    x86_exec_stack(st, f, Ghost(k));
    x86_exec_modified(st, f);
    x86_exec_guard(st, f);
    x86_exec_movaps(st, ln, t, f);
    x86_exec_call(abi, st, ln, f);
    x86_exec_notes(st, ln, f);
    x86_exec_cqo(st, ln, f);
    x86_exec_flags(st, ln, f);
}

fn xmm_diag_exec(ln: usize, x: &Vec<char>) -> (d: LintDiagnostic)
    ensures
        d@ == xmm_diag(ln as int, x@),
{
    let mut m = chars_of("Vector register '");
    append(&mut m, &to_uppercase(x));
    append_str(&mut m, "' is callee-saved on Windows x64 and was modified without being saved.");
    let mut fx = chars_of("Save to stack with 'movaps [rsp + offset], ");
    append(&mut fx, x);
    append_str(&mut fx, "' in prologue and restore before ret.");
    make_diag("CALLEE_SAVED_XMM_CLOBBERED", Severity::Warning, ln, &m, &chars_of(EXPL_XMM), &fx)
}

fn clobber_diag_exec(abi: CallingConvention, ln: usize, reg: &Vec<char>, saved: bool, restored: bool) -> (d: LintDiagnostic)
    ensures
        d@ == clobber_diag(abi, ln as int, reg@, saved, restored),
{
    let mut m = chars_of("Callee-saved register '");
    append(&mut m, reg);
    append_str(&mut m, "' was modified but not properly preserved (saved=");
    append(&mut m, &bool_text_exec(saved));
    append_str(&mut m, ", restored=");
    append(&mut m, &bool_text_exec(restored));
    append_str(&mut m, ").");
    let mut e = chars_of("According to ");
    append(&mut e, &abi.debug_text());
    append_str(&mut e, ", the caller expects '");
    append(&mut e, reg);
    append_str(&mut e, "' to remain unchanged across function calls. Clobbering it will corrupt the caller's state.");
    let mut fx = chars_of("Add 'push ");
    append(&mut fx, reg);
    append_str(&mut fx, "' in function prologue and 'pop ");
    append(&mut fx, reg);
    append_str(&mut fx, "' before ret.");
    make_diag("CALLEE_SAVED_REGISTER_CLOBBERED", Severity::Error, ln, &m, &e, &fx)
}

pub(crate) fn x86_callee_saved_exec(abi: CallingConvention) -> (v: Vec<Vec<char>>)
    ensures
        v.deep_view() == x86_callee_saved(abi),
{
    let mut v: Vec<Vec<char>> = Vec::new();
    push_text(&mut v, chars_of("rbx"));
    push_text(&mut v, chars_of("rbp"));
    if abi == CallingConvention::Windows_X64 {
        push_text(&mut v, chars_of("rdi"));
        push_text(&mut v, chars_of("rsi"));
    }
    push_text(&mut v, chars_of("r12"));
    push_text(&mut v, chars_of("r13"));
    push_text(&mut v, chars_of("r14"));
    push_text(&mut v, chars_of("r15"));
    proof {
        assert(v.deep_view() =~= x86_callee_saved(abi));
    }
    v
}

fn x86_exec_xmm_diags(out: &mut Vec<LintDiagnostic>, xs: &Vec<Vec<char>>, ln: usize)
    ensures
        diags_view(final(out)@) == diags_view(old(out)@) + xmm_diags(xs.deep_view(), ln as int),
{
    let ghost base = diags_view(out@);
    let mut i: usize = 0;
    while i < xs.len()
        invariant
            i <= xs.len(),
            diags_view(out@) == base + xmm_diags(xs.deep_view().take(i as int), ln as int),
        decreases xs.len() - i,
    {
        let d = xmm_diag_exec(ln, &xs[i]);
        crate::types::push_diag(out, d);
        proof {
            let t = xs.deep_view().take(i + 1);
            assert(t.drop_last() =~= xs.deep_view().take(i as int));
            assert(t.last() == xs[i as int]@);
        }
        i = i + 1;
    }
    proof {
        assert(xs.deep_view().take(xs.len() as int) =~= xs.deep_view());
    }
}

fn x86_exec_clobber_diags(abi: CallingConvention, out: &mut Vec<LintDiagnostic>, st: &X86Scan, ln: usize)
    ensures
        diags_view(final(out)@) == diags_view(old(out)@) + clobber_diags(abi, st@.pushed, st@.popped, st@.modified, x86_callee_saved(abi), ln as int),
{
    let regs = x86_callee_saved_exec(abi);
    let ghost base = diags_view(out@);
    let mut i: usize = 0;
    while i < regs.len()
        invariant
            i <= regs.len(),
            regs.deep_view() == x86_callee_saved(abi),
            diags_view(out@) == base + clobber_diags(abi, st@.pushed, st@.popped, st@.modified, regs.deep_view().take(i as int), ln as int),
        decreases regs.len() - i,
    {
        let r = &regs[i];
        let saved = contains_text(&st.pushed, r);
        let restored = contains_text(&st.popped, r);
        proof {
            let t = regs.deep_view().take(i + 1);
            assert(t.drop_last() =~= regs.deep_view().take(i as int));
            assert(t.last() == regs[i as int]@);
        }
        if contains_text(&st.modified, r) && (!saved || !restored) {
            let d = clobber_diag_exec(abi, ln, r, saved, restored);
            crate::types::push_diag(out, d);
        }
        i = i + 1;
    }
    proof {
        assert(regs.deep_view().take(regs.len() as int) =~= regs.deep_view());
    }
}

fn x86_exec_final(abi: CallingConvention, st: &X86Scan, n: usize, out: &mut Vec<LintDiagnostic>)
    ensures
        diags_view(final(out)@) == diags_view(old(out)@) + x86_final_diags(abi, st@, n as int),
{
    let ghost base = diags_view(out@);
    if st.had_imul && !st.checked_overflow {
        let d = make_diag(
            "UNCHECKED_ARITHMETIC_OVERFLOW",
            Severity::Warning,
            st.imul_line,
            &chars_of(MSG_IMUL),
            &chars_of(EXPL_IMUL),
            &chars_of(FIX_IMUL),
        );
        crate::types::push_diag(out, d);
    }
    let ghost o1 = diags_view(out@);
    if st.had_idiv && !st.had_div_guard {
        let d = make_diag(
            "UNCHECKED_IDIV_OVERFLOW",
            Severity::Error,
            st.idiv_line,
            &chars_of(MSG_IDIV),
            &chars_of(EXPL_IDIV),
            &chars_of(FIX_IDIV),
        );
        crate::types::push_diag(out, d);
    }
    let ghost o2 = diags_view(out@);
    if abi == CallingConvention::Windows_X64 {
        x86_exec_xmm_diags(out, &st.modified_xmm, n);
    }
    let ghost o3 = diags_view(out@);
    x86_exec_clobber_diags(abi, out, st, n);
    let ghost o4 = diags_view(out@);
    if st.used_avx && !st.has_vzeroupper {
        let d = make_diag(
            "AVX_SSE_TRANSITION_PENALTY",
            Severity::Warning,
            n,
            &chars_of(MSG_AVX),
            &chars_of(EXPL_AVX),
            &chars_of(FIX_AVX),
        );
        crate::types::push_diag(out, d);
    }
    proof {
        let s = st@;
        let d1 = if s.had_imul && !s.checked_overflow { seq![imul_diag(s.imul_line)] } else { Seq::<Diag>::empty() };
        let d2 = if s.had_idiv && !s.had_div_guard { seq![idiv_diag(s.idiv_line)] } else { Seq::<Diag>::empty() };
        let d3 = if abi == CallingConvention::Windows_X64 { xmm_diags(s.modified_xmm, n as int) } else { Seq::<Diag>::empty() };
        let d4 = clobber_diags(abi, s.pushed, s.popped, s.modified, x86_callee_saved(abi), n as int);
        let d5 = if s.used_avx && !s.has_vzeroupper { seq![avx_diag(n as int)] } else { Seq::<Diag>::empty() };
        assert(o1 =~= base + d1);
        assert(o2 =~= base + d1 + d2);
        assert(o3 =~= base + d1 + d2 + d3);
        assert(o4 =~= base + d1 + d2 + d3 + d4);
        assert(diags_view(out@) =~= base + (d1 + d2 + d3 + d4 + d5));
    }
}

/// The comment-free text of a line, as computed.
fn x86_clean_exec(line: &Vec<char>) -> (t: Vec<char>)
    ensures
        t@ == x86_clean(line@),
{
    cut_at_str_exec(cut_at_char_exec(trim_chars(line), ';'), "//")
}

fn x86_skipped_exec(t: &Vec<char>) -> (b: bool)
    ensures
        b == x86_skipped(t@),
{
    t.len() == 0 || starts_with_exec(t, &chars_of("#")) || ends_with_exec(t, &chars_of(":"))
}

/// Takes line `i` (from 0) of `ls` into the gathered state.
/// Line `i` (from 0) of `ls`: the scan state after it.
pub fn x86_lint_line(abi: CallingConvention, st: &mut X86Scan, ls: &Vec<Vec<char>>, i: usize)
    requires
        i < ls.len() < 0x8000_0000_0000_0000,
        old(st)@ == x86_scan(abi, ls.deep_view(), i as int),
        x86_bounded(old(st)@, i as int),
    ensures
        final(st)@ == x86_scan(abi, ls.deep_view(), i + 1),
        x86_bounded(final(st)@, i + 1),
{
    let t = x86_clean_exec(&ls[i]);
    proof {
        assert(ls.deep_view()[i as int] == ls[i as int]@);
    }
    if !x86_skipped_exec(&t) {
        let f = x86_line_facts(&t);
        x86_scan_line(abi, st, i + 1, &t, &f);
    } else {
        proof {
            lemma_x86_bounded_grows(st@, i as int);
        }
    }
}

/// Static ABI checks for x86_64 assembly under one calling convention.
pub struct X86_64Linter {
    abi: CallingConvention,
}

impl X86_64Linter {
    /// The convention the linter checks against.
    pub closed spec fn convention(&self) -> CallingConvention {
        self.abi
    }

    pub fn new(abi: CallingConvention) -> (l: Self)
        ensures
            l.convention() == abi,
    {
        X86_64Linter { abi }
    }

    /// Lints a source text. Lines are numbered from 1; the end-of-function
    /// findings carry the number of lines.
    #[verifier::spinoff_prover]
    #[verifier::rlimit(40)]
    pub fn lint(&self, assembly_code: &str) -> (res: Vec<LintDiagnostic>)
        requires
            assembly_code@.len() < 0x8000_0000_0000_0000,
        ensures
            diags_view(res@) == x86_lint(self.convention(), assembly_code@),
            forall|i: int| 0 <= i < diags_view(res@).len() ==> #[trigger] x86_rated(diags_view(res@)[i]),
    {
        proof {
            law_x86_rule_severities(self.abi, assembly_code@);
        }
        let code = chars_of(assembly_code);
        let ls = split_lines(&code);
        proof {
            crate::text::lemma_lines_len(code@);
        }
        let mut st = x86_scan_start();
        let mut i: usize = 0;
        while i < ls.len()
            invariant
                i <= ls.len(),
                ls.deep_view() == lines(code@),
                ls.len() <= code@.len() < 0x8000_0000_0000_0000,
                st@ == x86_scan(self.abi, ls.deep_view(), i as int),
                x86_bounded(st@, i as int),
            decreases ls.len() - i,
        {
            x86_lint_line(self.abi, &mut st, &ls, i);
            i = i + 1;
        }
        let ghost before = st@;
        let mut out: Vec<LintDiagnostic> = Vec::new();
        std::mem::swap(&mut out, &mut st.diagnostics);
        x86_exec_final(self.abi, &st, ls.len(), &mut out);
        proof {
            assert(x86_final_diags(self.abi, st@, ls.len() as int) == x86_final_diags(self.abi, before, ls.len() as int));
        }
        out
    }
}


/// The x86_64 rules and the severity each is reported with.
pub open spec fn x86_rule_table() -> Seq<(Seq<char>, Severity)> {
    seq![
        ("VECTOR_ALIGNMENT_FAULT_RISK"@, Severity::Hint),
        ("STACK_ALIGNMENT_VIOLATION"@, Severity::Error),
        ("WINDOWS_SHADOW_SPACE_MISSING"@, Severity::Error),
        ("SYSCALL_REGISTER_CLOBBER_NOTICE"@, Severity::Info),
        ("INVALID_64BIT_IMM_MEM_WRITE"@, Severity::Error),
        ("ZERO_LATENCY_IDIOM_SUGGESTION"@, Severity::Hint),
        ("CQO_CLOBBERS_DIVISOR_ERROR"@, Severity::Error),
        ("DESTRUCTIVE_SIGN_EXTENSION"@, Severity::Warning),
        ("UNCHECKED_ARITHMETIC_OVERFLOW"@, Severity::Warning),
        ("UNCHECKED_IDIV_OVERFLOW"@, Severity::Error),
        ("CALLEE_SAVED_XMM_CLOBBERED"@, Severity::Warning),
        ("CALLEE_SAVED_REGISTER_CLOBBERED"@, Severity::Error),
        ("AVX_SSE_TRANSITION_PENALTY"@, Severity::Warning),
    ]
}

/// Whether a diagnostic carries one of the rules with that rule's severity.
pub open spec fn x86_rated(d: Diag) -> bool {
    x86_rule_table().contains((d.rule, d.severity))
}

pub open spec fn x86_all_rated(ds: Seq<Diag>) -> bool {
    forall|i: int| 0 <= i < ds.len() ==> #[trigger] x86_rated(ds[i])
}

proof fn lemma_rated_push(ds: Seq<Diag>, d: Diag, k: int)
    requires
        x86_all_rated(ds),
        0 <= k < x86_rule_table().len(),
        x86_rule_table()[k] == (d.rule, d.severity),
    ensures
        x86_all_rated(ds.push(d)),
{
    assert forall|i: int| 0 <= i < ds.push(d).len() implies #[trigger] x86_rated(ds.push(d)[i]) by {
        if i == ds.len() {
            assert(x86_rule_table()[k] == (ds.push(d)[i].rule, ds.push(d)[i].severity));
        } else {
            assert(ds.push(d)[i] == ds[i]);
        }
    }
}

proof fn lemma_rated_concat(a: Seq<Diag>, b: Seq<Diag>)
    requires
        x86_all_rated(a),
        x86_all_rated(b),
    ensures
        x86_all_rated(a + b),
{
    assert forall|i: int| 0 <= i < (a + b).len() implies #[trigger] x86_rated((a + b)[i]) by {
        if i < a.len() {
            assert((a + b)[i] == a[i]);
        } else {
            assert((a + b)[i] == b[i - a.len()]);
        }
    }
}

proof fn lemma_step_rated(abi: CallingConvention, s: X86State, ln: int, t: Seq<char>, f: X86Facts)
    requires
        x86_all_rated(s.diags),
    ensures
        x86_all_rated(x86_step(abi, s, ln, t, f).diags),
{
    let s1 = x86_avx(s, f);
    let s2 = x86_stack(s1, f);
    let s3 = x86_modified(s2, f);
    let s4 = x86_guard(s3, f);
    let s5 = x86_movaps(s4, ln, t, f);
    if let Some(c) = f.movaps {
        lemma_rated_push(s4.diags, vector_align_diag(ln, group(c, 1)), 0);
    }
    assert(x86_all_rated(s5.diags));
    let s6 = x86_call(abi, s5, ln, f);
    if f.call {
        lemma_rated_push(s5.diags, stack_align_diag(ln, s5.stack_offset), 1);
        let s5a = if rem16(s5.stack_offset) != 0 {
            X86State { diags: s5.diags.push(stack_align_diag(ln, s5.stack_offset)), ..s5 }
        } else {
            s5
        };
        lemma_rated_push(s5a.diags, shadow_diag(ln, s5a.shadow_space), 2);
    }
    assert(x86_all_rated(s6.diags));
    let s7 = x86_notes(s6, ln, f);
    lemma_rated_push(s6.diags, syscall_diag(ln), 3);
    let s6a = if f.syscall { X86State { diags: s6.diags.push(syscall_diag(ln)), ..s6 } } else { s6 };
    if let Some(c) = f.mem_imm64 {
        lemma_rated_push(s6a.diags, imm64_diag(ln, group(c, 2)), 4);
    }
    let s6b = match f.mem_imm64 {
        Some(c) => X86State { diags: s6a.diags.push(imm64_diag(ln, group(c, 2))), ..s6a },
        None => s6a,
    };
    if let Some(c) = f.mov_zero {
        lemma_rated_push(s6b.diags, zero_idiom_diag(ln, group(c, 1)), 5);
    }
    assert(x86_all_rated(s7.diags));
    let s8a = x86_cqo_track(s7, ln, f);
    lemma_rated_push(s7.diags, sign_ext_diag(ln, MSG_CQO@), 7);
    lemma_rated_push(s7.diags, sign_ext_diag(ln, MSG_CDQ@), 7);
    assert(x86_all_rated(s8a.diags));
    let s8 = x86_cqo(s7, ln, f);
    if let Some(c) = f.idiv_div_rdx {
        let op = unicode_uppercase(group(c, 1));
        let reg = unicode_lowercase(group(c, 2));
        if s8a.last_cqo_line is Some {
            lemma_rated_push(s8a.diags, cqo_diag(ln, op, reg, "CQO"@, s8a.last_cqo_line->0), 6);
        }
        if s8a.last_cdq_line is Some {
            lemma_rated_push(s8a.diags, cqo_diag(ln, op, reg, "CDQ"@, s8a.last_cdq_line->0), 6);
        }
    }
    assert(x86_all_rated(s8.diags));
}

proof fn lemma_scan_rated(abi: CallingConvention, ls: Seq<Seq<char>>, k: int)
    ensures
        x86_all_rated(x86_scan(abi, ls, k).diags),
    decreases k,
{
    if k > 0 && k <= ls.len() {
        lemma_scan_rated(abi, ls, k - 1);
        let t = x86_clean(ls[k - 1]);
        if !x86_skipped(t) {
            lemma_step_rated(abi, x86_scan(abi, ls, k - 1), k, t, x86_facts(t));
        }
    }
}

proof fn lemma_xmm_rated(xs: Seq<Seq<char>>, ln: int)
    ensures
        x86_all_rated(xmm_diags(xs, ln)),
    decreases xs.len(),
{
    if xs.len() > 0 {
        lemma_xmm_rated(xs.drop_last(), ln);
        lemma_rated_push(xmm_diags(xs.drop_last(), ln), xmm_diag(ln, xs.last()), 10);
    }
}

proof fn lemma_clobber_rated(
    abi: CallingConvention,
    pushed: Seq<Seq<char>>,
    popped: Seq<Seq<char>>,
    modified: Seq<Seq<char>>,
    regs: Seq<Seq<char>>,
    ln: int,
)
    ensures
        x86_all_rated(clobber_diags(abi, pushed, popped, modified, regs, ln)),
    decreases regs.len(),
{
    if regs.len() > 0 {
        lemma_clobber_rated(abi, pushed, popped, modified, regs.drop_last(), ln);
        let r = regs.last();
        lemma_rated_push(
            clobber_diags(abi, pushed, popped, modified, regs.drop_last(), ln),
            clobber_diag(abi, ln, r, pushed.contains(r), popped.contains(r)),
            11,
        );
    }
}

/// Every x86_64 diagnostic carries one of the documented rules with that
/// rule's severity: an unchecked `imul` is a warning, an unguarded `idiv` an
/// error, a clobbered callee-saved XMM register a warning, `cqo`/`cdq` a
/// destructive sign-extension warning, missing `vzeroupper` the
/// AVX-SSE transition warning.
pub proof fn law_x86_rule_severities(abi: CallingConvention, code: Seq<char>)
    ensures
        forall|i: int| 0 <= i < x86_lint(abi, code).len() ==> #[trigger] x86_rated(x86_lint(abi, code)[i]),
{
    let ls = lines(code);
    let s = x86_scan(abi, ls, ls.len() as int);
    let n = ls.len() as int;
    lemma_scan_rated(abi, ls, n);
    let e = Seq::<Diag>::empty();
    assert(x86_all_rated(e));
    lemma_rated_push(e, imul_diag(s.imul_line), 8);
    lemma_rated_push(e, idiv_diag(s.idiv_line), 9);
    lemma_rated_push(e, avx_diag(n), 12);
    assert(seq![imul_diag(s.imul_line)] =~= e.push(imul_diag(s.imul_line)));
    assert(seq![idiv_diag(s.idiv_line)] =~= e.push(idiv_diag(s.idiv_line)));
    assert(seq![avx_diag(n)] =~= e.push(avx_diag(n)));
    lemma_xmm_rated(s.modified_xmm, n);
    lemma_clobber_rated(abi, s.pushed, s.popped, s.modified, x86_callee_saved(abi), n);
    let d1 = if s.had_imul && !s.checked_overflow { seq![imul_diag(s.imul_line)] } else { e };
    let d2 = if s.had_idiv && !s.had_div_guard { seq![idiv_diag(s.idiv_line)] } else { e };
    let d3 = if abi == CallingConvention::Windows_X64 { xmm_diags(s.modified_xmm, n) } else { e };
    let d4 = clobber_diags(abi, s.pushed, s.popped, s.modified, x86_callee_saved(abi), n);
    let d5 = if s.used_avx && !s.has_vzeroupper { seq![avx_diag(n)] } else { e };
    lemma_rated_concat(d1, d2);
    lemma_rated_concat(d1 + d2, d3);
    lemma_rated_concat(d1 + d2 + d3, d4);
    lemma_rated_concat(d1 + d2 + d3 + d4, d5);
    lemma_rated_concat(s.diags, x86_final_diags(abi, s, n));
}


/// `b` is `a` with diagnostics added after it.
pub open spec fn diags_extend(a: Seq<Diag>, b: Seq<Diag>) -> bool {
    a.len() <= b.len() && b.take(a.len() as int) == a
}

proof fn lemma_extend_refl(a: Seq<Diag>)
    ensures
        diags_extend(a, a),
{
    assert(a.take(a.len() as int) =~= a);
}

proof fn lemma_extend_push(a: Seq<Diag>, d: Diag)
    ensures
        diags_extend(a, a.push(d)),
{
    assert(a.push(d).take(a.len() as int) =~= a);
}

proof fn lemma_extend_trans(a: Seq<Diag>, b: Seq<Diag>, c: Seq<Diag>)
    requires
        diags_extend(a, b),
        diags_extend(b, c),
    ensures
        diags_extend(a, c),
{
    assert(c.take(a.len() as int) =~= c.take(b.len() as int).take(a.len() as int));
}

proof fn lemma_movaps_extends(s: X86State, ln: int, t: Seq<char>, f: X86Facts)
    ensures
        diags_extend(s.diags, x86_movaps(s, ln, t, f).diags),
{
    lemma_extend_refl(s.diags);
    if let Some(c) = f.movaps {
        lemma_extend_push(s.diags, vector_align_diag(ln, group(c, 1)));
    }
}

proof fn lemma_call_extends(abi: CallingConvention, s: X86State, ln: int, f: X86Facts)
    ensures
        diags_extend(s.diags, x86_call(abi, s, ln, f).diags),
{
    lemma_extend_refl(s.diags);
    if f.call {
        let s1 = if rem16(s.stack_offset) != 0 {
            X86State { diags: s.diags.push(stack_align_diag(ln, s.stack_offset)), ..s }
        } else {
            s
        };
        lemma_extend_push(s.diags, stack_align_diag(ln, s.stack_offset));
        lemma_extend_refl(s1.diags);
        lemma_extend_push(s1.diags, shadow_diag(ln, s1.shadow_space));
        lemma_extend_trans(s.diags, s1.diags, x86_call(abi, s, ln, f).diags);
    }
}

proof fn lemma_notes_extends(s: X86State, ln: int, f: X86Facts)
    ensures
        diags_extend(s.diags, x86_notes(s, ln, f).diags),
{
    let s1 = if f.syscall { X86State { diags: s.diags.push(syscall_diag(ln)), ..s } } else { s };
    lemma_extend_refl(s.diags);
    lemma_extend_push(s.diags, syscall_diag(ln));
    let s2 = match f.mem_imm64 {
        Some(c) => X86State { diags: s1.diags.push(imm64_diag(ln, group(c, 2))), ..s1 },
        None => s1,
    };
    lemma_extend_refl(s1.diags);
    if let Some(c) = f.mem_imm64 {
        lemma_extend_push(s1.diags, imm64_diag(ln, group(c, 2)));
    }
    lemma_extend_trans(s.diags, s1.diags, s2.diags);
    lemma_extend_refl(s2.diags);
    if let Some(c) = f.mov_zero {
        lemma_extend_push(s2.diags, zero_idiom_diag(ln, group(c, 1)));
    }
    lemma_extend_trans(s.diags, s2.diags, x86_notes(s, ln, f).diags);
}

proof fn lemma_cqo_check_extends(s: X86State, ln: int, f: X86Facts)
    ensures
        diags_extend(s.diags, x86_cqo_check(s, ln, f).diags),
        x86_flags(s, ln, f).diags == s.diags,
{
    lemma_extend_refl(s.diags);
    if let Some(c) = f.idiv_div_rdx {
        let op = unicode_uppercase(group(c, 1));
        let reg = unicode_lowercase(group(c, 2));
        if s.last_cqo_line is Some {
            lemma_extend_push(s.diags, cqo_diag(ln, op, reg, "CQO"@, s.last_cqo_line->0));
        }
        if s.last_cdq_line is Some {
            lemma_extend_push(s.diags, cqo_diag(ln, op, reg, "CDQ"@, s.last_cdq_line->0));
        }
    }
}

proof fn lemma_cqo_extends(s: X86State, ln: int, f: X86Facts)
    ensures
        diags_extend(s.diags, x86_cqo(s, ln, f).diags),
{
    let s1 = x86_cqo_track(s, ln, f);
    lemma_extend_refl(s.diags);
    lemma_extend_push(s.diags, sign_ext_diag(ln, MSG_CQO@));
    lemma_extend_push(s.diags, sign_ext_diag(ln, MSG_CDQ@));
    lemma_cqo_check_extends(s1, ln, f);
    lemma_extend_trans(s.diags, s1.diags, x86_cqo(s, ln, f).diags);
}

proof fn lemma_step_extends(abi: CallingConvention, s: X86State, ln: int, t: Seq<char>, f: X86Facts)
    ensures
        diags_extend(s.diags, x86_step(abi, s, ln, t, f).diags),
{
    let s4 = x86_guard(x86_modified(x86_stack(x86_avx(s, f), f), f), f);
    assert(s4.diags == s.diags);
    let s5 = x86_movaps(s4, ln, t, f);
    let s6 = x86_call(abi, s5, ln, f);
    let s7 = x86_notes(s6, ln, f);
    let s8 = x86_cqo(s7, ln, f);
    lemma_movaps_extends(s4, ln, t, f);
    lemma_call_extends(abi, s5, ln, f);
    lemma_notes_extends(s6, ln, f);
    lemma_cqo_extends(s7, ln, f);
    lemma_cqo_check_extends(s8, ln, f);
    lemma_extend_trans(s4.diags, s5.diags, s6.diags);
    lemma_extend_trans(s4.diags, s6.diags, s7.diags);
    lemma_extend_trans(s4.diags, s7.diags, s8.diags);
}

proof fn lemma_scan_extends(abi: CallingConvention, ls: Seq<Seq<char>>, j: int, k: int)
    requires
        0 <= j <= k <= ls.len(),
    ensures
        diags_extend(x86_scan(abi, ls, j).diags, x86_scan(abi, ls, k).diags),
    decreases k - j,
{
    if j == k {
        lemma_extend_refl(x86_scan(abi, ls, j).diags);
    } else {
        lemma_scan_extends(abi, ls, j, k - 1);
        let t = x86_clean(ls[k - 1]);
        let s = x86_scan(abi, ls, k - 1);
        if x86_skipped(t) {
        } else {
            lemma_step_extends(abi, s, k, t, x86_facts(t));
            lemma_extend_trans(x86_scan(abi, ls, j).diags, s.diags, x86_scan(abi, ls, k).diags);
        }
    }
}

/// Every `cqo` or `cdq` line is reported as a destructive sign extension
/// (a warning) at that line, whatever follows it.
pub proof fn law_sign_extension_reported(abi: CallingConvention, code: Seq<char>, k: int)
    requires
        0 <= k < lines(code).len(),
        !x86_skipped(x86_clean(lines(code)[k])),
        unicode_lowercase(x86_clean(lines(code)[k])) == "cqo"@
            || unicode_lowercase(x86_clean(lines(code)[k])) == "cdq"@,
    ensures
        x86_lint(abi, code).contains(sign_ext_diag(
            k + 1,
            if unicode_lowercase(x86_clean(lines(code)[k])) == "cqo"@ { MSG_CQO@ } else { MSG_CDQ@ },
        )),
{
    let ls = lines(code);
    let t = x86_clean(ls[k]);
    let f = x86_facts(t);
    let d = sign_ext_diag(k + 1, if f.lower == "cqo"@ { MSG_CQO@ } else { MSG_CDQ@ });
    let s = x86_scan(abi, ls, k);
    let s4 = x86_guard(x86_modified(x86_stack(x86_avx(s, f), f), f), f);
    let s7 = x86_notes(x86_call(abi, x86_movaps(s4, k + 1, t, f), k + 1, f), k + 1, f);
    let s8a = x86_cqo_track(s7, k + 1, f);
    let n = s7.diags.len() as int;
    assert(s8a.diags == s7.diags.push(d));
    lemma_cqo_check_extends(s8a, k + 1, f);
    let s9 = x86_step(abi, s, k + 1, t, f);
    assert(s9.diags == x86_cqo_check(s8a, k + 1, f).diags);
    assert(s9.diags[n] == s9.diags.take(s8a.diags.len() as int)[n]);
    assert(s9.diags[n] == d);
    assert(x86_scan(abi, ls, k + 1) == s9);
    lemma_scan_extends(abi, ls, k + 1, ls.len() as int);
    let fin = x86_scan(abi, ls, ls.len() as int).diags;
    assert(fin[n] == fin.take(s9.diags.len() as int)[n]);
    let all = x86_lint(abi, code);
    assert(all[n] == fin[n]);
    assert(all.contains(d));
}


/// A call made while the stack is not 16-byte aligned is reported at that
/// line with the offset the stack is at; on Windows x64 a call made with
/// less than 32 bytes allocated is reported as missing shadow space.
pub proof fn law_call_checks_reported(abi: CallingConvention, code: Seq<char>, k: int)
    requires
        0 <= k < lines(code).len(),
        !x86_skipped(x86_clean(lines(code)[k])),
        x86_facts(x86_clean(lines(code)[k])).call,
    ensures
        ({
            let f = x86_facts(x86_clean(lines(code)[k]));
            let st = x86_stack(x86_avx(x86_scan(abi, lines(code), k), f), f);
            &&& rem16(st.stack_offset) != 0 ==> x86_lint(abi, code).contains(stack_align_diag(k + 1, st.stack_offset))
            &&& abi == CallingConvention::Windows_X64 && st.shadow_space < 32
                ==> x86_lint(abi, code).contains(shadow_diag(k + 1, st.shadow_space))
        }),
{
    let ls = lines(code);
    let t = x86_clean(ls[k]);
    let f = x86_facts(t);
    let s = x86_scan(abi, ls, k);
    let st = x86_stack(x86_avx(s, f), f);
    let s4 = x86_guard(x86_modified(st, f), f);
    let s5 = x86_movaps(s4, k + 1, t, f);
    assert(s5.stack_offset == st.stack_offset && s5.shadow_space == st.shadow_space);
    let s6 = x86_call(abi, s5, k + 1, f);
    let s9 = x86_step(abi, s, k + 1, t, f);
    let s7 = x86_notes(s6, k + 1, f);
    let s8 = x86_cqo(s7, k + 1, f);
    lemma_notes_extends(s6, k + 1, f);
    lemma_cqo_extends(s7, k + 1, f);
    lemma_cqo_check_extends(s8, k + 1, f);
    lemma_extend_trans(s6.diags, s7.diags, s8.diags);
    assert(x86_scan(abi, ls, k + 1) == s9);
    lemma_scan_extends(abi, ls, k + 1, ls.len() as int);
    let fin = x86_scan(abi, ls, ls.len() as int).diags;
    lemma_extend_trans(s6.diags, s9.diags, fin);
    let all = x86_lint(abi, code);
    let s5a = if rem16(s5.stack_offset) != 0 {
        X86State { diags: s5.diags.push(stack_align_diag(k + 1, s5.stack_offset)), ..s5 }
    } else {
        s5
    };
    if rem16(st.stack_offset) != 0 {
        let n = s5.diags.len() as int;
        assert(s6.diags[n] == stack_align_diag(k + 1, st.stack_offset));
        assert(fin[n] == fin.take(s6.diags.len() as int)[n]);
        assert(all[n] == fin[n]);
    }
    if abi == CallingConvention::Windows_X64 && st.shadow_space < 32 {
        let n = s5a.diags.len() as int;
        assert(s6.diags[n] == shadow_diag(k + 1, st.shadow_space));
        assert(fin[n] == fin.take(s6.diags.len() as int)[n]);
        assert(all[n] == fin[n]);
    }
}


proof fn lemma_clobber_listed(
    abi: CallingConvention,
    pushed: Seq<Seq<char>>,
    popped: Seq<Seq<char>>,
    modified: Seq<Seq<char>>,
    regs: Seq<Seq<char>>,
    ln: int,
    r: Seq<char>,
)
    requires
        regs.contains(r),
        modified.contains(r),
        !(pushed.contains(r) && popped.contains(r)),
    ensures
        clobber_diags(abi, pushed, popped, modified, regs, ln).contains(
            clobber_diag(abi, ln, r, pushed.contains(r), popped.contains(r)),
        ),
    decreases regs.len(),
{
    let rest = clobber_diags(abi, pushed, popped, modified, regs.drop_last(), ln);
    let d = clobber_diag(abi, ln, r, pushed.contains(r), popped.contains(r));
    if regs.last() == r {
        assert(clobber_diags(abi, pushed, popped, modified, regs, ln) == rest.push(d));
        assert(rest.push(d)[rest.len() as int] == d);
    } else {
        let j = choose|j: int| 0 <= j < regs.len() && regs[j] == r;
        assert(regs.drop_last()[j] == r);
        lemma_clobber_listed(abi, pushed, popped, modified, regs.drop_last(), ln, r);
        let k = choose|k: int| 0 <= k < rest.len() && rest[k] == d;
        let all = clobber_diags(abi, pushed, popped, modified, regs, ln);
        assert(all == rest || all == rest.push(all.last()));
        assert(all[k] == d);
    }
}

/// Every callee-saved register of the convention that the code writes and
/// does not both push and pop is reported, once the function ends, as a
/// clobbered callee-saved register, with whether it was saved and restored:
/// in particular a register pushed but never popped is reported.
pub proof fn law_unpreserved_callee_saved_reported(abi: CallingConvention, code: Seq<char>, r: Seq<char>)
    ensures
        ({
            let n = lines(code).len() as int;
            let s = x86_scan(abi, lines(code), n);
            x86_callee_saved(abi).contains(r) && s.modified.contains(r) && !(s.pushed.contains(r) && s.popped.contains(r))
                ==> x86_lint(abi, code).contains(clobber_diag(abi, n, r, s.pushed.contains(r), s.popped.contains(r)))
        }),
{
    let n = lines(code).len() as int;
    let s = x86_scan(abi, lines(code), n);
    if x86_callee_saved(abi).contains(r) && s.modified.contains(r) && !(s.pushed.contains(r) && s.popped.contains(r)) {
        let d = clobber_diag(abi, n, r, s.pushed.contains(r), s.popped.contains(r));
        lemma_clobber_listed(abi, s.pushed, s.popped, s.modified, x86_callee_saved(abi), n, r);
        let d4 = clobber_diags(abi, s.pushed, s.popped, s.modified, x86_callee_saved(abi), n);
        let k = choose|k: int| 0 <= k < d4.len() && d4[k] == d;
        let e = Seq::<Diag>::empty();
        let d1 = if s.had_imul && !s.checked_overflow { seq![imul_diag(s.imul_line)] } else { e };
        let d2 = if s.had_idiv && !s.had_div_guard { seq![idiv_diag(s.idiv_line)] } else { e };
        let d3 = if abi == CallingConvention::Windows_X64 { xmm_diags(s.modified_xmm, n) } else { e };
        let d5 = if s.used_avx && !s.has_vzeroupper { seq![avx_diag(n)] } else { e };
        let fin = x86_final_diags(abi, s, n);
        assert(fin == d1 + d2 + d3 + d4 + d5);
        let off = s.diags.len() + d1.len() + d2.len() + d3.len();
        let all = x86_lint(abi, code);
        assert(all == s.diags + fin);
        assert(all[off + k] == d);
    }
}


/// Whether a cleaned line pushes register `r` (by its lower-case name).
pub open spec fn line_pushes(t: Seq<char>, r: Seq<char>) -> bool {
    x86_facts(t).push matches Some(c) && unicode_lowercase(group(c, 1)) == r
}

/// Whether a cleaned line pops register `r`.
pub open spec fn line_pops(t: Seq<char>, r: Seq<char>) -> bool {
    x86_facts(t).pop matches Some(c) && unicode_lowercase(group(c, 1)) == r
}

/// Whether a cleaned line writes the 64-bit register `r` as its destination.
pub open spec fn line_writes(t: Seq<char>, r: Seq<char>) -> bool {
    x86_facts(t).dst_reg matches Some(c) && canonical_reg(unicode_lowercase(group(c, 2))) == r
}

/// Whether line `j` (from 0) of `ls` is a code line that pushes `r`.
pub open spec fn code_line_pushes(ls: Seq<Seq<char>>, j: int, r: Seq<char>) -> bool {
    0 <= j < ls.len() && !x86_skipped(x86_clean(ls[j])) && line_pushes(x86_clean(ls[j]), r)
}

/// Whether line `j` (from 0) of `ls` is a code line that pops `r`.
pub open spec fn code_line_pops(ls: Seq<Seq<char>>, j: int, r: Seq<char>) -> bool {
    0 <= j < ls.len() && !x86_skipped(x86_clean(ls[j])) && line_pops(x86_clean(ls[j]), r)
}

/// Whether line `j` (from 0) of `ls` is a code line that writes `r`.
pub open spec fn code_line_writes(ls: Seq<Seq<char>>, j: int, r: Seq<char>) -> bool {
    0 <= j < ls.len() && !x86_skipped(x86_clean(ls[j])) && line_writes(x86_clean(ls[j]), r)
}

proof fn lemma_modified_keeps(s: X86State, f: X86Facts)
    ensures
        forall|x: Seq<char>| s.modified.contains(x) ==> #[trigger] x86_modified(s, f).modified.contains(x),
        f.dst_reg matches Some(c) ==> x86_modified(s, f).modified.contains(canonical_reg(unicode_lowercase(group(c, 2)))),
{
    let s1 = match f.dst_reg {
        Some(c) => X86State { modified: s.modified.push(canonical_reg(unicode_lowercase(group(c, 2)))), ..s },
        None => s,
    };
    let m = x86_modified(s, f).modified;
    let a = s1.modified;
    assert(a.len() <= m.len() && forall|j: int| 0 <= j < a.len() ==> m[j] == a[j]) by {
        if let Some(c) = f.string_insn {
            let p = unicode_lowercase(group(c, 1));
            if starts_with(p, "stos"@) {
                assert(m == a.push("rdi"@));
            } else if starts_with(p, "lods"@) {
                assert(m == a.push("rsi"@));
            } else if starts_with(p, "movs"@) {
                assert(m == a.push("rdi"@).push("rsi"@));
            }
        }
    }
    assert forall|x: Seq<char>| s.modified.contains(x) implies #[trigger] m.contains(x) by {
        let j = choose|j: int| 0 <= j < s.modified.len() && s.modified[j] == x;
        assert(a[j] == x);
        assert(m[j] == x);
    }
    if let Some(c) = f.dst_reg {
        assert(m[a.len() - 1] == a[a.len() - 1]);
    }
}

proof fn lemma_step_lists(abi: CallingConvention, s: X86State, ln: int, t: Seq<char>, f: X86Facts)
    ensures
        x86_step(abi, s, ln, t, f).pushed == (match f.push {
            Some(c) => s.pushed.push(unicode_lowercase(group(c, 1))),
            None => s.pushed,
        }),
        x86_step(abi, s, ln, t, f).popped == (match f.pop {
            Some(c) => s.popped.push(unicode_lowercase(group(c, 1))),
            None => s.popped,
        }),
        forall|x: Seq<char>| s.modified.contains(x) ==> #[trigger] x86_step(abi, s, ln, t, f).modified.contains(x),
        f.dst_reg matches Some(c) ==> x86_step(abi, s, ln, t, f).modified.contains(canonical_reg(unicode_lowercase(group(c, 2)))),
{
    let s2 = x86_stack(x86_avx(s, f), f);
    let s3 = x86_modified(s2, f);
    let s5 = x86_movaps(x86_guard(s3, f), ln, t, f);
    let s6 = x86_call(abi, s5, ln, f);
    let s7 = x86_notes(s6, ln, f);
    let s8 = x86_cqo(s7, ln, f);
    let s9 = x86_flags(s8, ln, f);
    assert(s5.pushed == s3.pushed && s5.popped == s3.popped && s5.modified == s3.modified);
    assert(s6.pushed == s3.pushed && s6.popped == s3.popped && s6.modified == s3.modified);
    assert(s7.pushed == s3.pushed && s7.popped == s3.popped && s7.modified == s3.modified);
    assert(s8.pushed == s3.pushed && s8.popped == s3.popped && s8.modified == s3.modified);
    assert(s9.pushed == s3.pushed && s9.popped == s3.popped && s9.modified == s3.modified);
    assert(s2.modified == s.modified);
    lemma_modified_keeps(s2, f);
}

proof fn lemma_scan_lists(abi: CallingConvention, ls: Seq<Seq<char>>, k: int, r: Seq<char>)
    requires
        0 <= k <= ls.len(),
    ensures
        x86_scan(abi, ls, k).pushed.contains(r)
            <==> exists|j: int| 0 <= j < k && #[trigger] code_line_pushes(ls, j, r),
        x86_scan(abi, ls, k).popped.contains(r)
            <==> exists|j: int| 0 <= j < k && #[trigger] code_line_pops(ls, j, r),
        (exists|j: int| 0 <= j < k && #[trigger] code_line_writes(ls, j, r))
            ==> x86_scan(abi, ls, k).modified.contains(r),
    decreases k,
{
    if k == 0 {
        assert(x86_scan(abi, ls, 0).pushed =~= Seq::<Seq<char>>::empty());
    } else {
        lemma_scan_lists(abi, ls, k - 1, r);
        let s = x86_scan(abi, ls, k - 1);
        let t = x86_clean(ls[k - 1]);
        let n = x86_scan(abi, ls, k);
        if x86_skipped(t) {
            assert(!code_line_pushes(ls, k - 1, r));
            assert(!code_line_pops(ls, k - 1, r));
            assert(!code_line_writes(ls, k - 1, r));
            assert((exists|j: int| 0 <= j < k && #[trigger] code_line_pushes(ls, j, r))
                == (exists|j: int| 0 <= j < k - 1 && #[trigger] code_line_pushes(ls, j, r)));
            assert((exists|j: int| 0 <= j < k && #[trigger] code_line_pops(ls, j, r))
                == (exists|j: int| 0 <= j < k - 1 && #[trigger] code_line_pops(ls, j, r)));
            assert((exists|j: int| 0 <= j < k && #[trigger] code_line_writes(ls, j, r))
                == (exists|j: int| 0 <= j < k - 1 && #[trigger] code_line_writes(ls, j, r)));
        } else {
            let f = x86_facts(t);
            lemma_step_lists(abi, s, k, t, f);
            assert(code_line_pushes(ls, k - 1, r) == line_pushes(t, r));
            assert(code_line_pops(ls, k - 1, r) == line_pops(t, r));
            assert(code_line_writes(ls, k - 1, r) == line_writes(t, r));
            // pushed
            if n.pushed.contains(r) {
                let q = choose|q: int| 0 <= q < n.pushed.len() && n.pushed[q] == r;
                if q < s.pushed.len() {
                    assert(s.pushed[q] == r);
                    assert(s.pushed.contains(r));
                } else {
                    assert(code_line_pushes(ls, k - 1, r));
                }
            }
            if exists|j: int| 0 <= j < k && #[trigger] code_line_pushes(ls, j, r) {
                let j = choose|j: int| 0 <= j < k && #[trigger] code_line_pushes(ls, j, r);
                if j < k - 1 {
                    let q = choose|q: int| 0 <= q < s.pushed.len() && s.pushed[q] == r;
                    assert(n.pushed[q] == r);
                } else {
                    assert(n.pushed[n.pushed.len() - 1] == r);
                }
            }
            // popped
            if n.popped.contains(r) {
                let q = choose|q: int| 0 <= q < n.popped.len() && n.popped[q] == r;
                if q < s.popped.len() {
                    assert(s.popped[q] == r);
                    assert(s.popped.contains(r));
                } else {
                    assert(code_line_pops(ls, k - 1, r));
                }
            }
            if exists|j: int| 0 <= j < k && #[trigger] code_line_pops(ls, j, r) {
                let j = choose|j: int| 0 <= j < k && #[trigger] code_line_pops(ls, j, r);
                if j < k - 1 {
                    let q = choose|q: int| 0 <= q < s.popped.len() && s.popped[q] == r;
                    assert(n.popped[q] == r);
                } else {
                    assert(n.popped[n.popped.len() - 1] == r);
                }
            }
            // modified
            if exists|j: int| 0 <= j < k && #[trigger] code_line_writes(ls, j, r) {
                let j = choose|j: int| 0 <= j < k && #[trigger] code_line_writes(ls, j, r);
                if j < k - 1 {
                    assert(s.modified.contains(r));
                }
            }
        }
    }
}

/// Line by line: when some code line writes a callee-saved register `r` of
/// the convention, and not both some line pushes `r` and some line pops it,
/// the lint reports `r` as a clobbered callee-saved register, saying whether
/// it was saved (pushed) and restored (popped). A register written and
/// pushed but never popped is reported with `saved=true, restored=false`.
pub proof fn law_clobbered_register_reported_by_lines(abi: CallingConvention, code: Seq<char>, r: Seq<char>)
    requires
        x86_callee_saved(abi).contains(r),
        exists|j: int| #[trigger] code_line_writes(lines(code), j, r),
        !((exists|j: int| #[trigger] code_line_pushes(lines(code), j, r))
            && (exists|j: int| #[trigger] code_line_pops(lines(code), j, r))),
    ensures
        x86_lint(abi, code).contains(clobber_diag(
            abi,
            lines(code).len() as int,
            r,
            exists|j: int| #[trigger] code_line_pushes(lines(code), j, r),
            exists|j: int| #[trigger] code_line_pops(lines(code), j, r),
        )),
{
    let ls = lines(code);
    let n = ls.len() as int;
    lemma_scan_lists(abi, ls, n, r);
    assert((exists|j: int| #[trigger] code_line_pushes(ls, j, r))
        == (exists|j: int| 0 <= j < n && #[trigger] code_line_pushes(ls, j, r)));
    assert((exists|j: int| #[trigger] code_line_pops(ls, j, r))
        == (exists|j: int| 0 <= j < n && #[trigger] code_line_pops(ls, j, r)));
    assert(exists|j: int| 0 <= j < n && #[trigger] code_line_writes(ls, j, r));
    law_unpreserved_callee_saved_reported(abi, code, r);
}


/// No diagnostic of `ds` is a clobbered callee-saved register.
pub open spec fn no_clobber_rule(ds: Seq<Diag>) -> bool {
    forall|i: int| 0 <= i < ds.len() ==> (#[trigger] ds[i]).rule != "CALLEE_SAVED_REGISTER_CLOBBERED"@
}

proof fn lemma_rules_differ()
    ensures
        "VECTOR_ALIGNMENT_FAULT_RISK"@ != "CALLEE_SAVED_REGISTER_CLOBBERED"@,
        "STACK_ALIGNMENT_VIOLATION"@ != "CALLEE_SAVED_REGISTER_CLOBBERED"@,
        "WINDOWS_SHADOW_SPACE_MISSING"@ != "CALLEE_SAVED_REGISTER_CLOBBERED"@,
        "SYSCALL_REGISTER_CLOBBER_NOTICE"@ != "CALLEE_SAVED_REGISTER_CLOBBERED"@,
        "INVALID_64BIT_IMM_MEM_WRITE"@ != "CALLEE_SAVED_REGISTER_CLOBBERED"@,
        "ZERO_LATENCY_IDIOM_SUGGESTION"@ != "CALLEE_SAVED_REGISTER_CLOBBERED"@,
        "CQO_CLOBBERS_DIVISOR_ERROR"@ != "CALLEE_SAVED_REGISTER_CLOBBERED"@,
        "DESTRUCTIVE_SIGN_EXTENSION"@ != "CALLEE_SAVED_REGISTER_CLOBBERED"@,
        "UNCHECKED_ARITHMETIC_OVERFLOW"@ != "CALLEE_SAVED_REGISTER_CLOBBERED"@,
        "UNCHECKED_IDIV_OVERFLOW"@ != "CALLEE_SAVED_REGISTER_CLOBBERED"@,
        "CALLEE_SAVED_XMM_CLOBBERED"@ != "CALLEE_SAVED_REGISTER_CLOBBERED"@,
        "AVX_SSE_TRANSITION_PENALTY"@ != "CALLEE_SAVED_REGISTER_CLOBBERED"@,
{
    reveal_strlit("VECTOR_ALIGNMENT_FAULT_RISK");
    reveal_strlit("STACK_ALIGNMENT_VIOLATION");
    reveal_strlit("WINDOWS_SHADOW_SPACE_MISSING");
    reveal_strlit("SYSCALL_REGISTER_CLOBBER_NOTICE");
    reveal_strlit("INVALID_64BIT_IMM_MEM_WRITE");
    reveal_strlit("ZERO_LATENCY_IDIOM_SUGGESTION");
    reveal_strlit("CQO_CLOBBERS_DIVISOR_ERROR");
    reveal_strlit("DESTRUCTIVE_SIGN_EXTENSION");
    reveal_strlit("UNCHECKED_ARITHMETIC_OVERFLOW");
    reveal_strlit("UNCHECKED_IDIV_OVERFLOW");
    reveal_strlit("CALLEE_SAVED_XMM_CLOBBERED");
    reveal_strlit("AVX_SSE_TRANSITION_PENALTY");
    reveal_strlit("CALLEE_SAVED_REGISTER_CLOBBERED");
    assert("VECTOR_ALIGNMENT_FAULT_RISK"@[0] != "CALLEE_SAVED_REGISTER_CLOBBERED"@[0]);
    assert("STACK_ALIGNMENT_VIOLATION"@[0] != "CALLEE_SAVED_REGISTER_CLOBBERED"@[0]);
    assert("WINDOWS_SHADOW_SPACE_MISSING"@[0] != "CALLEE_SAVED_REGISTER_CLOBBERED"@[0]);
    assert("SYSCALL_REGISTER_CLOBBER_NOTICE"@[0] != "CALLEE_SAVED_REGISTER_CLOBBERED"@[0]);
    assert("INVALID_64BIT_IMM_MEM_WRITE"@[0] != "CALLEE_SAVED_REGISTER_CLOBBERED"@[0]);
    assert("ZERO_LATENCY_IDIOM_SUGGESTION"@[0] != "CALLEE_SAVED_REGISTER_CLOBBERED"@[0]);
    assert("CQO_CLOBBERS_DIVISOR_ERROR"@[1] != "CALLEE_SAVED_REGISTER_CLOBBERED"@[1]);
    assert("DESTRUCTIVE_SIGN_EXTENSION"@[0] != "CALLEE_SAVED_REGISTER_CLOBBERED"@[0]);
    assert("UNCHECKED_ARITHMETIC_OVERFLOW"@[0] != "CALLEE_SAVED_REGISTER_CLOBBERED"@[0]);
    assert("UNCHECKED_IDIV_OVERFLOW"@[0] != "CALLEE_SAVED_REGISTER_CLOBBERED"@[0]);
    assert("CALLEE_SAVED_XMM_CLOBBERED"@[13] != "CALLEE_SAVED_REGISTER_CLOBBERED"@[13]);
    assert("AVX_SSE_TRANSITION_PENALTY"@[0] != "CALLEE_SAVED_REGISTER_CLOBBERED"@[0]);
}

proof fn lemma_no_clobber_push(ds: Seq<Diag>, d: Diag)
    requires
        no_clobber_rule(ds),
        d.rule != "CALLEE_SAVED_REGISTER_CLOBBERED"@,
    ensures
        no_clobber_rule(ds.push(d)),
{
    assert forall|i: int| 0 <= i < ds.push(d).len() implies (#[trigger] ds.push(d)[i]).rule != "CALLEE_SAVED_REGISTER_CLOBBERED"@ by {
        if i < ds.len() {
            assert(ds.push(d)[i] == ds[i]);
        }
    }
}

proof fn lemma_no_clobber_concat(a: Seq<Diag>, b: Seq<Diag>)
    requires
        no_clobber_rule(a),
        no_clobber_rule(b),
    ensures
        no_clobber_rule(a + b),
{
    assert forall|i: int| 0 <= i < (a + b).len() implies (#[trigger] (a + b)[i]).rule != "CALLEE_SAVED_REGISTER_CLOBBERED"@ by {
        if i < a.len() {
            assert((a + b)[i] == a[i]);
        } else {
            assert((a + b)[i] == b[i - a.len()]);
        }
    }
}

proof fn lemma_step_no_clobber(abi: CallingConvention, s: X86State, ln: int, t: Seq<char>, f: X86Facts)
    requires
        no_clobber_rule(s.diags),
    ensures
        no_clobber_rule(x86_step(abi, s, ln, t, f).diags),
{
    lemma_rules_differ();
    let s4 = x86_guard(x86_modified(x86_stack(x86_avx(s, f), f), f), f);
    let s5 = x86_movaps(s4, ln, t, f);
    if let Some(c) = f.movaps {
        lemma_no_clobber_push(s4.diags, vector_align_diag(ln, group(c, 1)));
    }
    assert(no_clobber_rule(s5.diags));
    let s6 = x86_call(abi, s5, ln, f);
    if f.call {
        lemma_no_clobber_push(s5.diags, stack_align_diag(ln, s5.stack_offset));
        let s5a = if rem16(s5.stack_offset) != 0 {
            X86State { diags: s5.diags.push(stack_align_diag(ln, s5.stack_offset)), ..s5 }
        } else {
            s5
        };
        lemma_no_clobber_push(s5a.diags, shadow_diag(ln, s5a.shadow_space));
    }
    assert(no_clobber_rule(s6.diags));
    let s7 = x86_notes(s6, ln, f);
    lemma_no_clobber_push(s6.diags, syscall_diag(ln));
    let s6a = if f.syscall { X86State { diags: s6.diags.push(syscall_diag(ln)), ..s6 } } else { s6 };
    if let Some(c) = f.mem_imm64 {
        lemma_no_clobber_push(s6a.diags, imm64_diag(ln, group(c, 2)));
    }
    let s6b = match f.mem_imm64 {
        Some(c) => X86State { diags: s6a.diags.push(imm64_diag(ln, group(c, 2))), ..s6a },
        None => s6a,
    };
    if let Some(c) = f.mov_zero {
        lemma_no_clobber_push(s6b.diags, zero_idiom_diag(ln, group(c, 1)));
    }
    assert(no_clobber_rule(s7.diags));
    let s8a = x86_cqo_track(s7, ln, f);
    lemma_no_clobber_push(s7.diags, sign_ext_diag(ln, MSG_CQO@));
    lemma_no_clobber_push(s7.diags, sign_ext_diag(ln, MSG_CDQ@));
    assert(no_clobber_rule(s8a.diags));
    let s8 = x86_cqo(s7, ln, f);
    if let Some(c) = f.idiv_div_rdx {
        let op = unicode_uppercase(group(c, 1));
        let reg = unicode_lowercase(group(c, 2));
        if s8a.last_cqo_line is Some {
            lemma_no_clobber_push(s8a.diags, cqo_diag(ln, op, reg, "CQO"@, s8a.last_cqo_line->0));
        }
        if s8a.last_cdq_line is Some {
            lemma_no_clobber_push(s8a.diags, cqo_diag(ln, op, reg, "CDQ"@, s8a.last_cdq_line->0));
        }
    }
    assert(no_clobber_rule(s8.diags));
}

proof fn lemma_scan_no_clobber(abi: CallingConvention, ls: Seq<Seq<char>>, k: int)
    ensures
        no_clobber_rule(x86_scan(abi, ls, k).diags),
    decreases k,
{
    if k > 0 && k <= ls.len() {
        lemma_scan_no_clobber(abi, ls, k - 1);
        let t = x86_clean(ls[k - 1]);
        if !x86_skipped(t) {
            lemma_step_no_clobber(abi, x86_scan(abi, ls, k - 1), k, t, x86_facts(t));
        }
    }
}

proof fn lemma_xmm_no_clobber(xs: Seq<Seq<char>>, ln: int)
    ensures
        no_clobber_rule(xmm_diags(xs, ln)),
    decreases xs.len(),
{
    lemma_rules_differ();
    if xs.len() > 0 {
        lemma_xmm_no_clobber(xs.drop_last(), ln);
        lemma_no_clobber_push(xmm_diags(xs.drop_last(), ln), xmm_diag(ln, xs.last()));
    }
}

/// What a clobber report in `clobber_diags` is made of.
pub open spec fn unpreserved_report(
    abi: CallingConvention,
    pushed: Seq<Seq<char>>,
    popped: Seq<Seq<char>>,
    modified: Seq<Seq<char>>,
    regs: Seq<Seq<char>>,
    ln: int,
    d: Diag,
) -> bool {
    exists|r: Seq<char>| #![trigger regs.contains(r), modified.contains(r)]
        regs.contains(r) && modified.contains(r) && !(pushed.contains(r) && popped.contains(r))
        && d == clobber_diag(abi, ln, r, pushed.contains(r), popped.contains(r))
}

proof fn lemma_clobber_sound(
    abi: CallingConvention,
    pushed: Seq<Seq<char>>,
    popped: Seq<Seq<char>>,
    modified: Seq<Seq<char>>,
    regs: Seq<Seq<char>>,
    ln: int,
)
    ensures
        forall|i: int| 0 <= i < clobber_diags(abi, pushed, popped, modified, regs, ln).len()
            ==> unpreserved_report(abi, pushed, popped, modified, regs, ln, #[trigger] clobber_diags(abi, pushed, popped, modified, regs, ln)[i]),
    decreases regs.len(),
{
    if regs.len() > 0 {
        let pre = regs.drop_last();
        lemma_clobber_sound(abi, pushed, popped, modified, pre, ln);
        let rest = clobber_diags(abi, pushed, popped, modified, pre, ln);
        let all = clobber_diags(abi, pushed, popped, modified, regs, ln);
        let r = regs.last();
        assert(regs[regs.len() - 1] == r);
        assert forall|i: int| 0 <= i < all.len() implies unpreserved_report(abi, pushed, popped, modified, regs, ln, #[trigger] all[i]) by {
            if i < rest.len() {
                assert(all[i] == rest[i]);
                assert(unpreserved_report(abi, pushed, popped, modified, pre, ln, rest[i]));
                let r2 = choose|r2: Seq<char>| #![trigger pre.contains(r2), modified.contains(r2)]
                    pre.contains(r2) && modified.contains(r2) && !(pushed.contains(r2) && popped.contains(r2))
                    && rest[i] == clobber_diag(abi, ln, r2, pushed.contains(r2), popped.contains(r2));
                let j = choose|j: int| 0 <= j < pre.len() && pre[j] == r2;
                assert(regs[j] == r2);
                assert(regs.contains(r2));
            } else {
                assert(all[i] == clobber_diag(abi, ln, r, pushed.contains(r), popped.contains(r)));
                assert(regs.contains(r));
            }
        }
    }
}

/// Every clobbered-callee-saved-register report is deserved: it names a
/// callee-saved register of the convention that the code writes and does
/// not both push and pop, with whether it was saved and restored.
pub proof fn law_reported_clobbers_are_unpreserved(abi: CallingConvention, code: Seq<char>)
    ensures
        ({
            let n = lines(code).len() as int;
            let s = x86_scan(abi, lines(code), n);
            forall|i: int| 0 <= i < x86_lint(abi, code).len() && (#[trigger] x86_lint(abi, code)[i]).rule == "CALLEE_SAVED_REGISTER_CLOBBERED"@
                ==> unpreserved_report(abi, s.pushed, s.popped, s.modified, x86_callee_saved(abi), n, x86_lint(abi, code)[i])
        }),
{
    lemma_rules_differ();
    let n = lines(code).len() as int;
    let s = x86_scan(abi, lines(code), n);
    lemma_scan_no_clobber(abi, lines(code), n);
    lemma_xmm_no_clobber(s.modified_xmm, n);
    lemma_clobber_sound(abi, s.pushed, s.popped, s.modified, x86_callee_saved(abi), n);
    let e = Seq::<Diag>::empty();
    let d1 = if s.had_imul && !s.checked_overflow { seq![imul_diag(s.imul_line)] } else { e };
    let d2 = if s.had_idiv && !s.had_div_guard { seq![idiv_diag(s.idiv_line)] } else { e };
    let d3 = if abi == CallingConvention::Windows_X64 { xmm_diags(s.modified_xmm, n) } else { e };
    let d4 = clobber_diags(abi, s.pushed, s.popped, s.modified, x86_callee_saved(abi), n);
    let d5 = if s.used_avx && !s.has_vzeroupper { seq![avx_diag(n)] } else { e };
    assert(no_clobber_rule(d1));
    assert(no_clobber_rule(d2));
    assert(no_clobber_rule(d3));
    assert(no_clobber_rule(d5));
    let all = x86_lint(abi, code);
    assert(all == s.diags + d1 + d2 + d3 + d4 + d5);
    let p = s.diags.len() + d1.len() + d2.len() + d3.len();
    assert forall|i: int| 0 <= i < all.len() && (#[trigger] all[i]).rule == "CALLEE_SAVED_REGISTER_CLOBBERED"@
        implies unpreserved_report(abi, s.pushed, s.popped, s.modified, x86_callee_saved(abi), n, all[i]) by {
        if i < s.diags.len() {
            assert(all[i] == s.diags[i]);
        } else if i < s.diags.len() + d1.len() {
            assert(all[i] == d1[i - s.diags.len()]);
        } else if i < s.diags.len() + d1.len() + d2.len() {
            assert(all[i] == d2[i - s.diags.len() - d1.len()]);
        } else if i < p {
            assert(all[i] == d3[i - s.diags.len() - d1.len() - d2.len()]);
        } else if i < p + d4.len() {
            assert(all[i] == d4[i - p]);
        } else {
            assert(all[i] == d5[i - p - d4.len()]);
        }
    }
}

} // verus!
