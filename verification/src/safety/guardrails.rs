//! Safety audit of x86 assembly: privileged instructions, exploit patterns,
//! unprobed stack allocations and unguarded divisions.
use vstd::prelude::*;
use crate::pattern::{captures, group, group_of, is_match, is_match_exec, regex_captures};
use crate::text::{
    append, append_str, chars_of, chars_of_string, contains_exec, eq_chars, eq_str, contains_seq, decimal, eq_ignore_ascii_case,
    eq_ignore_ascii_case_exec, ascii_lower, find_char, find_char_in, fmt_u64, lines, parse_u64, parse_u64_exec,
    slice_chars, split_lines, starts_with, starts_with_exec, string_of, to_lowercase, to_uppercase,
    trim, trim_chars, unicode_lowercase, unicode_uppercase,
};
use crate::types::ExecutionMode;

verus! {

pub const RE_PRIVILEGED: &'static str = r"(?i)^\s*(cli|sti|hlt|in\b|out\b|ins\b|outs\b|wrmsr|rdmsr|invd|wbinvd|invlpg|lidt|lgdt|ltr|swapgs|sysenter|sysexit)\b";
pub const RE_GETPC: &'static str = r"(?i)^\s*call\s+(\$\+5|\.+5|[0-9a-fA-FxX]+)\s*$";
pub const RE_AUDIT_POP: &'static str = r"(?i)^\s*pop\s+([a-z0-9]+)";
pub const RE_LARGE_STACK: &'static str = r"(?i)^\s*sub\s+(rsp|esp),\s*(0x[0-9a-fA-F]+|\d+)";
pub const RE_AUDIT_DIV: &'static str = r"(?i)^\s*(div|idiv)\s+([a-z0-9]+)";
pub const RE_LABEL: &'static str = r"^([A-Za-z_.$][A-Za-z0-9_.$]*):\s*$";
pub const RE_JUMP: &'static str = r"(?i)^\s*j[a-z]+\s+([A-Za-z_.$][A-Za-z0-9_.$]*)\s*$";
pub const MIT_CLI_WITHOUT_STI: &'static str = "Re-enable interrupts with 'sti' (or restore RFLAGS with 'popfq') on every exit path after 'cli'.";
pub const DESC_SPIN_WITHOUT_PAUSE: &'static str = "Busy-wait loop without a 'pause' instruction. Tight spinning thrashes the pipeline, starves the sibling hyper-thread and risks memory-order violation stalls on multi-core CPUs.";

pub const MIT_PRIVILEGED: &'static str = "Remove privileged instruction or implement via OS kernel driver API.";
pub const DESC_NOP_SLED: &'static str = "Detected consecutive NOP instructions typical of exploit NOP sleds or padding.";
pub const MIT_NOP_SLED: &'static str = "Replace multi-NOP padding with architectural multi-byte NOPs (e.g. 'nop dword [rax]') or optimize alignment with assembler '.align' directives.";
pub const MIT_LARGE_STACK: &'static str = "Call '__chkstk' (Windows) or allocate in increments of 4096 bytes touching each page, or allocate large buffers on heap instead.";
pub const SUMMARY_DANGEROUS: &'static str = "CRITICAL: Assembly contains privileged or crash-inducing instructions. Blocked from execution.";
pub const SUMMARY_HIGH_RISK: &'static str = "HIGH RISK: Potential stack overflow or memory hazards detected. Review mitigations before execution.";
pub const SUMMARY_CAUTION: &'static str = "CAUTION: Minor safety or portability concerns detected (e.g. unchecked division or legacy idioms).";
pub const SUMMARY_SAFE: &'static str = "SAFE: Code conforms to safety guardrails. No hostile or privileged instructions found.";

/// How risky a finding, or a whole text, is.
#[derive(Debug, Clone, Copy, PartialEq, Eq, Structural)]
pub enum SafetyRiskLevel {
    Safe,
    Caution,
    HighRisk,
    Dangerous,
}

/// One hazard found on one line.
#[derive(Debug, Clone)]
pub struct SafetyFinding {
    pub category: String,
    pub risk_level: SafetyRiskLevel,
    pub line: usize,
    pub instruction: String,
    pub description: String,
    pub mitigation: String,
}

/// The mathematical content of a finding.
pub struct Finding {
    pub category: Seq<char>,
    pub risk_level: SafetyRiskLevel,
    pub line: int,
    pub instruction: Seq<char>,
    pub description: Seq<char>,
    pub mitigation: Seq<char>,
}

impl View for SafetyFinding {
    type V = Finding;

    open spec fn view(&self) -> Finding {
        Finding {
            category: self.category@,
            risk_level: self.risk_level,
            line: self.line as int,
            instruction: self.instruction@,
            description: self.description@,
            mitigation: self.mitigation@,
        }
    }
}

pub open spec fn findings_view(v: Seq<SafetyFinding>) -> Seq<Finding> {
    v.map_values(|f: SafetyFinding| f@)
}

/// The outcome of an audit.
#[derive(Debug, Clone)]
pub struct SafetyReport {
    pub overall_risk: SafetyRiskLevel,
    pub is_executable_safely: bool,
    pub findings: Vec<SafetyFinding>,
    pub summary: String,
}

/// The mathematical content of a report.
pub struct Report {
    pub overall_risk: SafetyRiskLevel,
    pub is_executable_safely: bool,
    pub findings: Seq<Finding>,
    pub summary: Seq<char>,
}

impl View for SafetyReport {
    type V = Report;

    open spec fn view(&self) -> Report {
        Report {
            overall_risk: self.overall_risk,
            is_executable_safely: self.is_executable_safely,
            findings: findings_view(self.findings@),
            summary: self.summary@,
        }
    }
}

pub open spec fn finding(
    category: Seq<char>,
    risk_level: SafetyRiskLevel,
    line: int,
    instruction: Seq<char>,
    description: Seq<char>,
    mitigation: Seq<char>,
) -> Finding {
    Finding { category, risk_level, line, instruction, description, mitigation }
}

fn make_finding(
    category: &str,
    risk_level: SafetyRiskLevel,
    line: usize,
    instruction: &Vec<char>,
    description: &Vec<char>,
    mitigation: &Vec<char>,
) -> (f: SafetyFinding)
    ensures
        f@ == finding(category@, risk_level, line as int, instruction@, description@, mitigation@),
{
    SafetyFinding {
        category: crate::text::string_from(category),
        risk_level,
        line,
        instruction: string_of(instruction),
        description: string_of(description),
        mitigation: string_of(mitigation),
    }
}

fn push_finding(v: &mut Vec<SafetyFinding>, f: SafetyFinding)
    ensures
        findings_view(final(v)@) == findings_view(old(v)@).push(f@),
{
    let ghost old_v = v@;
    v.push(f);
    proof {
        assert(findings_view(v@) =~= findings_view(old_v).push(f@));
    }
}

/// Lines the auditor passes over: blank lines and comments.
pub open spec fn audit_skipped(t: Seq<char>) -> bool {
    t.len() == 0 || starts_with(t, ";"@) || starts_with(t, "#"@) || starts_with(t, "//"@)
}

fn audit_skipped_exec(t: &Vec<char>) -> (b: bool)
    ensures
        b == audit_skipped(t@),
{
    t.len() == 0 || starts_with_exec(t, &chars_of(";")) || starts_with_exec(t, &chars_of("#"))
        || starts_with_exec(t, &chars_of("//"))
}

/// An immediate as `sub rsp, imm` writes it: `0x`/`0X` hexadecimal or
/// decimal, 0 when it does not fit a `u64`.
pub open spec fn stack_imm(s: Seq<char>) -> int {
    let p = if starts_with(s, "0x"@) || starts_with(s, "0X"@) {
        parse_u64(s.skip(2), 16)
    } else {
        parse_u64(s, 10)
    };
    match p {
        Some(v) => v,
        None => 0,
    }
}

fn stack_imm_exec(s: &Vec<char>) -> (v: u64)
    ensures
        v as int == stack_imm(s@),
{
    proof {
        reveal_strlit("0x");
        reveal_strlit("0X");
    }
    let p = if starts_with_exec(s, &chars_of("0x")) || starts_with_exec(s, &chars_of("0X")) {
        let rest = slice_chars(s, 2, s.len());
        proof {
            assert(rest@ =~= s@.skip(2));
        }
        parse_u64_exec(&rest, 16)
    } else {
        parse_u64_exec(s, 10)
    };
    match p {
        Some(v) => v,
        None => 0,
    }
}

/// The value a `mov` loads into the divisor: lower-case `0x` hexadecimal or
/// decimal, 0 when it does not fit a `u64`.
pub open spec fn mov_imm(s: Seq<char>) -> int {
    let p = if starts_with(s, "0x"@) {
        parse_u64(s.skip(2), 16)
    } else {
        parse_u64(s, 10)
    };
    match p {
        Some(v) => v,
        None => 0,
    }
}

fn mov_imm_exec(s: &Vec<char>) -> (v: u64)
    ensures
        v as int == mov_imm(s@),
{
    proof {
        reveal_strlit("0x");
    }
    let p = if starts_with_exec(s, &chars_of("0x")) {
        let rest = slice_chars(s, 2, s.len());
        proof {
            assert(rest@ =~= s@.skip(2));
        }
        parse_u64_exec(&rest, 16)
    } else {
        parse_u64_exec(s, 10)
    };
    match p {
        Some(v) => v,
        None => 0,
    }
}

/// A lower-case line that tests divisor `d` against zero.
pub open spec fn zero_test(pl: Seq<char>, d: Seq<char>) -> bool {
    contains_seq(pl, "test "@ + d + ", "@ + d) || contains_seq(pl, "test "@ + d + ","@ + d)
        || contains_seq(pl, "cmp "@ + d + ", 0"@) || contains_seq(pl, "cmp "@ + d + ",0"@)
}

/// A lower-case line `mov d, imm` with one comma and a non-zero immediate.
pub open spec fn nonzero_mov(pl: Seq<char>, d: Seq<char>) -> bool {
    &&& starts_with(pl, "mov "@ + d + ","@)
    &&& match find_char(pl, ',') {
        Some(p) => find_char(pl.skip(p + 1), ',') is None && mov_imm(trim(pl.skip(p + 1))) > 0,
        None => false,
    }
}

/// Whether one of the code lines before line `j` (from 0), looking back over
/// at most 25 of them with `checked` already looked at, guards divisor `d`.
pub open spec fn guard_scan(ls: Seq<Seq<char>>, d: Seq<char>, j: int, checked: int) -> bool
    decreases j,
{
    if j <= 0 || j > ls.len() {
        false
    } else {
        let p = trim(ls[j - 1]);
        if audit_skipped(p) {
            guard_scan(ls, d, j - 1, checked)
        } else {
            let pl = unicode_lowercase(p);
            if zero_test(pl, d) || nonzero_mov(pl, d) {
                true
            } else if checked + 1 >= 25 {
                false
            } else {
                guard_scan(ls, d, j - 1, checked + 1)
            }
        }
    }
}

fn text3(a: &str, d: &Vec<char>, b: &str) -> (r: Vec<char>)
    ensures
        r@ == a@ + d@ + b@,
{
    let mut r = chars_of(a);
    append(&mut r, d);
    append_str(&mut r, b);
    r
}

fn zero_test_exec(pl: &Vec<char>, d: &Vec<char>) -> (b: bool)
    ensures
        b == zero_test(pl@, d@),
{
    let mut t1 = text3("test ", d, ", ");
    append(&mut t1, d);
    let mut t2 = text3("test ", d, ",");
    append(&mut t2, d);
    contains_exec(pl, &t1) || contains_exec(pl, &t2) || contains_exec(pl, &text3("cmp ", d, ", 0"))
        || contains_exec(pl, &text3("cmp ", d, ",0"))
}

fn nonzero_mov_exec(pl: &Vec<char>, d: &Vec<char>) -> (b: bool)
    ensures
        b == nonzero_mov(pl@, d@),
{
    if !starts_with_exec(pl, &text3("mov ", d, ",")) {
        return false;
    }
    match find_char_in(pl, ',') {
        Some(p) => {
            proof {
                crate::text::lemma_find_char_bound(pl@, ',', 0);
                assert(find_char(pl@, ',') == crate::text::find_char_from(pl@, ',', 0));
                assert(p < pl.len());
            }
            let rest = slice_chars(pl, p + 1, pl.len());
            proof {
                assert(rest@ =~= pl@.skip(p + 1));
            }
            if find_char_in(&rest, ',').is_some() {
                false
            } else {
                mov_imm_exec(&trim_chars(&rest)) > 0
            }
        },
        None => false,
    }
}

fn guarded_exec(ls: &Vec<Vec<char>>, d: &Vec<char>, i: usize) -> (b: bool)
    requires
        i <= ls.len(),
    ensures
        b == guard_scan(ls.deep_view(), d@, i as int, 0),
{
    let mut j: usize = i;
    let mut checked: usize = 0;
    while j > 0
        invariant
            j <= i <= ls.len(),
            checked < 25,
            guard_scan(ls.deep_view(), d@, i as int, 0) == guard_scan(ls.deep_view(), d@, j as int, checked as int),
        decreases j,
    {
        let p = trim_chars(&ls[j - 1]);
        proof {
            assert(ls.deep_view()[j - 1] == ls[j - 1]@);
        }
        if !audit_skipped_exec(&p) {
            let pl = to_lowercase(&p);
            if zero_test_exec(&pl, d) || nonzero_mov_exec(&pl, d) {
                return true;
            }
            if checked + 1 >= 25 {
                return false;
            }
            checked = checked + 1;
        }
        j = j - 1;
    }
    false
}

/// What the auditor has gathered after some lines.
pub struct AuditState {
    pub nop_streak: int,
    pub prev_getpc: bool,
    pub findings: Seq<Finding>,
}

pub open spec fn priv_finding(ln: int, t: Seq<char>, instr: Seq<char>) -> Finding {
    finding(
        "PRIVILEGED_INSTRUCTION"@,
        SafetyRiskLevel::Dangerous,
        ln,
        t,
        "'"@ + instr
            + "' is a privileged Ring 0 instruction. Executing this in user-space will immediately trigger a General Protection Fault (#GP)."@,
        MIT_PRIVILEGED@,
    )
}

pub open spec fn nop_finding(ln: int, t: Seq<char>) -> Finding {
    finding("NOP_SLED_DETECTED"@, SafetyRiskLevel::HighRisk, ln, t, DESC_NOP_SLED@, MIT_NOP_SLED@)
}

pub open spec fn getpc_finding(ln: int, t: Seq<char>, r: Seq<char>) -> Finding {
    finding(
        "POSITION_INDEPENDENT_GETPC_STUB"@,
        SafetyRiskLevel::HighRisk,
        ln,
        t,
        "Detected classic GetPC stub ('call $+5; pop "@ + r
            + "'). While common in PIC shellcode, in modern 64-bit assembly, RIP-relative addressing is faster and hardware-accelerated."@,
        "Replace with RIP-relative address loading: 'lea "@ + r + ", [rip + target_label]'."@,
    )
}

pub open spec fn stack_finding(ln: int, t: Seq<char>, v: int) -> Finding {
    finding(
        "UNPROBED_LARGE_STACK_ALLOCATION"@,
        SafetyRiskLevel::HighRisk,
        ln,
        t,
        "Stack allocation of "@ + decimal(v)
            + " bytes exceeds page size (4096 bytes). Without stack probing, this can bypass the OS guard page and cause immediate stack corruption or memory faults."@,
        MIT_LARGE_STACK@,
    )
}

pub open spec fn div_finding(ln: int, t: Seq<char>, d: Seq<char>) -> Finding {
    finding(
        "UNCHECKED_DIVISION_HAZARD"@,
        SafetyRiskLevel::Caution,
        ln,
        t,
        "'"@ + t + "' will trigger an immediate Divide Error Exception (#DE) if divisor '"@ + d
            + "' is 0 or if quotient overflows RAX/RDX."@,
        "Validate divisor: 'test "@ + d + ", "@ + d + "; jz handle_zero_error' before executing division."@,
    )
}

/// Privileged instructions and NOP sleds on the trimmed line `t`.
pub open spec fn audit_first(s: AuditState, ln: int, t: Seq<char>) -> AuditState {
    let s1 = match regex_captures(RE_PRIVILEGED@, t) {
        Some(c) => AuditState {
            findings: s.findings.push(priv_finding(ln, t, unicode_uppercase(group(c, 1)))),
            ..s
        },
        None => s,
    };
    if eq_ignore_ascii_case(t, "nop"@) {
        let n = s1.nop_streak + 1;
        if n == 4 {
            AuditState { nop_streak: n, findings: s1.findings.push(nop_finding(ln, t)), ..s1 }
        } else {
            AuditState { nop_streak: n, ..s1 }
        }
    } else {
        AuditState { nop_streak: 0, ..s1 }
    }
}

/// GetPC stubs and large stack allocations on the trimmed line `t`.
pub open spec fn audit_second(s: AuditState, ln: int, t: Seq<char>) -> AuditState {
    let s1 = if is_match(RE_GETPC@, t) {
        AuditState { prev_getpc: true, ..s }
    } else if s.prev_getpc {
        match regex_captures(RE_AUDIT_POP@, t) {
            Some(c) => AuditState {
                prev_getpc: false,
                findings: s.findings.push(getpc_finding(ln, t, group(c, 1))),
                ..s
            },
            None => AuditState { prev_getpc: false, ..s },
        }
    } else {
        s
    };
    match regex_captures(RE_LARGE_STACK@, t) {
        Some(c) => {
            let v = stack_imm(group(c, 2));
            if v > 4096 {
                AuditState { findings: s1.findings.push(stack_finding(ln, t, v)), ..s1 }
            } else {
                s1
            }
        },
        None => s1,
    }
}

/// Unguarded divisions on line `i` (from 0) of `ls`, trimmed to `t`.
pub open spec fn audit_third(s: AuditState, ls: Seq<Seq<char>>, i: int, t: Seq<char>) -> AuditState {
    match regex_captures(RE_AUDIT_DIV@, t) {
        Some(c) => {
            let d = unicode_lowercase(group(c, 2));
            if guard_scan(ls, d, i, 0) {
                s
            } else {
                AuditState { findings: s.findings.push(div_finding(i + 1, t, d)), ..s }
            }
        },
        None => s,
    }
}

pub open spec fn audit_initial() -> AuditState {
    AuditState { nop_streak: 0, prev_getpc: false, findings: Seq::empty() }
}

/// The state after the first `k` lines of `ls`.
pub open spec fn audit_scan(ls: Seq<Seq<char>>, k: int) -> AuditState
    decreases k,
{
    if k <= 0 || k > ls.len() {
        audit_initial()
    } else {
        let s = audit_scan(ls, k - 1);
        let t = trim(ls[k - 1]);
        if audit_skipped(t) {
            s
        } else {
            audit_third(audit_second(audit_first(s, k, t), k, t), ls, k - 1, t)
        }
    }
}

/// Whether some finding has the given risk level.
pub open spec fn has_level(fs: Seq<Finding>, r: SafetyRiskLevel) -> bool {
    exists|k: int| 0 <= k < fs.len() && #[trigger] fs[k].risk_level == r
}

/// The highest risk among the findings.
pub open spec fn overall_risk(fs: Seq<Finding>) -> SafetyRiskLevel {
    if has_level(fs, SafetyRiskLevel::Dangerous) {
        SafetyRiskLevel::Dangerous
    } else if has_level(fs, SafetyRiskLevel::HighRisk) {
        SafetyRiskLevel::HighRisk
    } else if has_level(fs, SafetyRiskLevel::Caution) {
        SafetyRiskLevel::Caution
    } else {
        SafetyRiskLevel::Safe
    }
}

pub open spec fn summary_of(r: SafetyRiskLevel) -> Seq<char> {
    match r {
        SafetyRiskLevel::Dangerous => SUMMARY_DANGEROUS@,
        SafetyRiskLevel::HighRisk => SUMMARY_HIGH_RISK@,
        SafetyRiskLevel::Caution => SUMMARY_CAUTION@,
        SafetyRiskLevel::Safe => SUMMARY_SAFE@,
    }
}

/// Whether a report of this risk keeps code from being run: `Dangerous` and
/// `HighRisk` block, `Caution` and `Safe` do not.
pub open spec fn blocks_execution(r: SafetyRiskLevel) -> bool {
    r == SafetyRiskLevel::Dangerous || r == SafetyRiskLevel::HighRisk
}

/// The report made of a list of findings.
pub open spec fn report_of(fs: Seq<Finding>) -> Report {
    let r = overall_risk(fs);
    Report { overall_risk: r, is_executable_safely: !blocks_execution(r), findings: fs, summary: summary_of(r) }
}

/// What an audit of a source text reports.
pub open spec fn audit_spec(code: Seq<char>) -> Report {
    let ls = lines(code);
    report_of(audit_scan(ls, ls.len() as int).findings)
}

/// The auditor's running state, as computed.
pub struct AuditScan {
    pub nop_streak: usize,
    pub prev_getpc: bool,
    pub findings: Vec<SafetyFinding>,
}

impl View for AuditScan {
    type V = AuditState;

    open spec fn view(&self) -> AuditState {
        AuditState {
            nop_streak: self.nop_streak as int,
            prev_getpc: self.prev_getpc,
            findings: findings_view(self.findings@),
        }
    }
}

fn audit_first_exec(st: &mut AuditScan, ln: usize, t: &Vec<char>)
    requires
        old(st).nop_streak < ln,
    ensures
        final(st)@ == audit_first(old(st)@, ln as int, t@),
        final(st).nop_streak <= ln,
{
    match captures(RE_PRIVILEGED, t) {
        Some(c) => {
            let mut desc = chars_of("'");
            append(&mut desc, &to_uppercase(&group_of(&c, 1)));
            append_str(&mut desc, "' is a privileged Ring 0 instruction. Executing this in user-space will immediately trigger a General Protection Fault (#GP).");
            let f = make_finding(
                "PRIVILEGED_INSTRUCTION",
                SafetyRiskLevel::Dangerous,
                ln,
                t,
                &desc,
                &chars_of(MIT_PRIVILEGED),
            );
            push_finding(&mut st.findings, f);
        },
        None => {},
    }
    if eq_ignore_ascii_case_exec(t, &chars_of("nop")) {
        st.nop_streak = st.nop_streak + 1;
        if st.nop_streak == 4 {
            let f = make_finding(
                "NOP_SLED_DETECTED",
                SafetyRiskLevel::HighRisk,
                ln,
                t,
                &chars_of(DESC_NOP_SLED),
                &chars_of(MIT_NOP_SLED),
            );
            push_finding(&mut st.findings, f);
        }
    } else {
        st.nop_streak = 0;
    }
}

fn audit_second_exec(st: &mut AuditScan, ln: usize, t: &Vec<char>)
    ensures
        final(st)@ == audit_second(old(st)@, ln as int, t@),
        final(st).nop_streak == old(st).nop_streak,
{
    if is_match_exec(RE_GETPC, t) {
        st.prev_getpc = true;
    } else if st.prev_getpc {
        match captures(RE_AUDIT_POP, t) {
            Some(c) => {
                let r = group_of(&c, 1);
                let mut desc = chars_of("Detected classic GetPC stub ('call $+5; pop ");
                append(&mut desc, &r);
                append_str(&mut desc, "'). While common in PIC shellcode, in modern 64-bit assembly, RIP-relative addressing is faster and hardware-accelerated.");
                let mut mit = chars_of("Replace with RIP-relative address loading: 'lea ");
                append(&mut mit, &r);
                append_str(&mut mit, ", [rip + target_label]'.");
                let f = make_finding("POSITION_INDEPENDENT_GETPC_STUB", SafetyRiskLevel::HighRisk, ln, t, &desc, &mit);
                push_finding(&mut st.findings, f);
            },
            None => {},
        }
        st.prev_getpc = false;
    }
    match captures(RE_LARGE_STACK, t) {
        Some(c) => {
            let v = stack_imm_exec(&group_of(&c, 2));
            if v > 4096 {
                let mut desc = chars_of("Stack allocation of ");
                append(&mut desc, &fmt_u64(v));
                append_str(&mut desc, " bytes exceeds page size (4096 bytes). Without stack probing, this can bypass the OS guard page and cause immediate stack corruption or memory faults.");
                let f = make_finding(
                    "UNPROBED_LARGE_STACK_ALLOCATION",
                    SafetyRiskLevel::HighRisk,
                    ln,
                    t,
                    &desc,
                    &chars_of(MIT_LARGE_STACK),
                );
                push_finding(&mut st.findings, f);
            }
        },
        None => {},
    }
}

fn audit_third_exec(st: &mut AuditScan, ls: &Vec<Vec<char>>, i: usize, t: &Vec<char>)
    requires
        i < ls.len(),
    ensures
        final(st)@ == audit_third(old(st)@, ls.deep_view(), i as int, t@),
        final(st).nop_streak == old(st).nop_streak,
{
    match captures(RE_AUDIT_DIV, t) {
        Some(c) => {
            let d = to_lowercase(&group_of(&c, 2));
            if !guarded_exec(ls, &d, i) {
                let mut desc = chars_of("'");
                append(&mut desc, t);
                append_str(&mut desc, "' will trigger an immediate Divide Error Exception (#DE) if divisor '");
                append(&mut desc, &d);
                append_str(&mut desc, "' is 0 or if quotient overflows RAX/RDX.");
                let mut mit = chars_of("Validate divisor: 'test ");
                append(&mut mit, &d);
                append_str(&mut mit, ", ");
                append(&mut mit, &d);
                append_str(&mut mit, "; jz handle_zero_error' before executing division.");
                let f = make_finding("UNCHECKED_DIVISION_HAZARD", SafetyRiskLevel::Caution, i + 1, t, &desc, &mit);
                push_finding(&mut st.findings, f);
            }
        },
        None => {},
    }
}

fn audit_line(st: &mut AuditScan, ls: &Vec<Vec<char>>, i: usize)
    requires
        i < ls.len(),
        old(st)@ == audit_scan(ls.deep_view(), i as int),
        old(st).nop_streak <= i,
    ensures
        final(st)@ == audit_scan(ls.deep_view(), i + 1),
        final(st).nop_streak <= i + 1,
{
    let t = trim_chars(&ls[i]);
    proof {
        assert(ls.deep_view()[i as int] == ls[i as int]@);
    }
    if !audit_skipped_exec(&t) {
        audit_first_exec(st, i + 1, &t);
        audit_second_exec(st, i + 1, &t);
        audit_third_exec(st, ls, i, &t);
    }
}

fn has_level_exec(fs: &Vec<SafetyFinding>, r: SafetyRiskLevel) -> (b: bool)
    ensures
        b == has_level(findings_view(fs@), r),
{
    let mut k: usize = 0;
    while k < fs.len()
        invariant
            k <= fs.len(),
            forall|j: int| 0 <= j < k ==> findings_view(fs@)[j].risk_level != r,
        decreases fs.len() - k,
    {
        if fs[k].risk_level == r {
            proof {
                assert(findings_view(fs@)[k as int].risk_level == r);
            }
            return true;
        }
        k = k + 1;
    }
    false
}

/// The safety auditor.
pub struct SafetyGuardrails;

impl Default for SafetyGuardrails {
    fn default() -> (g: Self)
        ensures
            g == SafetyGuardrails,
    {
        SafetyGuardrails
    }
}

impl SafetyGuardrails {
    pub fn new() -> (g: Self)
        ensures
            g == SafetyGuardrails,
    {
        SafetyGuardrails
    }

    /// Audits a source text: one pass over its lines, looking back up to 25
    /// code lines from each division for a guard of the divisor.
    #[verifier::spinoff_prover]
    pub fn audit(&self, assembly_code: &str) -> (report: SafetyReport)
        ensures
            report@ == audit_spec(assembly_code@),
    {
        let code = chars_of(assembly_code);
        let ls = split_lines(&code);
        let mut st = AuditScan { nop_streak: 0, prev_getpc: false, findings: Vec::new() };
        proof {
            assert(findings_view(st.findings@) =~= Seq::<Finding>::empty());
        }
        let mut i: usize = 0;
        while i < ls.len()
            invariant
                i <= ls.len(),
                ls.deep_view() == lines(code@),
                st@ == audit_scan(ls.deep_view(), i as int),
                st.nop_streak <= i,
            decreases ls.len() - i,
        {
            audit_line(&mut st, &ls, i);
            i = i + 1;
        }
        report_from(st.findings)
    }
}

/// The report made of a list of findings.
fn report_from(findings: Vec<SafetyFinding>) -> (report: SafetyReport)
    ensures
        report@ == report_of(findings_view(findings@)),
{
    {
        let overall_risk = if has_level_exec(&findings, SafetyRiskLevel::Dangerous) {
            SafetyRiskLevel::Dangerous
        } else if has_level_exec(&findings, SafetyRiskLevel::HighRisk) {
            SafetyRiskLevel::HighRisk
        } else if has_level_exec(&findings, SafetyRiskLevel::Caution) {
            SafetyRiskLevel::Caution
        } else {
            SafetyRiskLevel::Safe
        };
        let is_executable_safely = overall_risk != SafetyRiskLevel::Dangerous && overall_risk != SafetyRiskLevel::HighRisk;
        let summary = match overall_risk {
            SafetyRiskLevel::Dangerous => crate::text::string_from(SUMMARY_DANGEROUS),
            SafetyRiskLevel::HighRisk => crate::text::string_from(SUMMARY_HIGH_RISK),
            SafetyRiskLevel::Caution => crate::text::string_from(SUMMARY_CAUTION),
            SafetyRiskLevel::Safe => crate::text::string_from(SUMMARY_SAFE),
        };
        SafetyReport { overall_risk, is_executable_safely, findings, summary }
    }
}


/// `b` is `a` with findings of line `ln` added at the end, none of them safe.
pub open spec fn extends_at(a: Seq<Finding>, b: Seq<Finding>, ln: int) -> bool {
    &&& a.len() <= b.len()
    &&& b.take(a.len() as int) == a
    &&& forall|i: int| a.len() <= i < b.len() ==> #[trigger] b[i].risk_level != SafetyRiskLevel::Safe && b[i].line == ln
}

proof fn lemma_extends_push(a: Seq<Finding>, b: Seq<Finding>, f: Finding, ln: int)
    requires
        extends_at(a, b, ln),
        f.risk_level != SafetyRiskLevel::Safe,
        f.line == ln,
    ensures
        extends_at(a, b.push(f), ln),
{
    assert(b.push(f).take(a.len() as int) =~= b.take(a.len() as int));
}

proof fn lemma_extends_refl(a: Seq<Finding>, ln: int)
    ensures
        extends_at(a, a, ln),
{
    assert(a.take(a.len() as int) =~= a);
}

proof fn lemma_extends_trans(a: Seq<Finding>, b: Seq<Finding>, c: Seq<Finding>, ln: int)
    requires
        extends_at(a, b, ln),
        extends_at(b, c, ln),
    ensures
        extends_at(a, c, ln),
{
    assert(c.take(a.len() as int) =~= c.take(b.len() as int).take(a.len() as int));
    assert forall|i: int| a.len() <= i < c.len() implies #[trigger] c[i].risk_level != SafetyRiskLevel::Safe && c[i].line == ln by {
        if i < b.len() {
            assert(c[i] == c.take(b.len() as int)[i]);
        }
    }
}

proof fn lemma_first_extends(s: AuditState, k: int, t: Seq<char>)
    ensures
        extends_at(s.findings, audit_first(s, k, t).findings, k),
        regex_captures(RE_PRIVILEGED@, t) matches Some(c) ==> audit_first(s, k, t).findings[s.findings.len() as int]
            == priv_finding(k, t, unicode_uppercase(group(c, 1))),
{
    let a = s.findings;
    lemma_extends_refl(a, k);
    let s1 = match regex_captures(RE_PRIVILEGED@, t) {
        Some(c) => AuditState {
            findings: s.findings.push(priv_finding(k, t, unicode_uppercase(group(c, 1)))),
            ..s
        },
        None => s,
    };
    if let Some(c) = regex_captures(RE_PRIVILEGED@, t) {
        lemma_extends_push(a, a, priv_finding(k, t, unicode_uppercase(group(c, 1))), k);
    }
    if eq_ignore_ascii_case(t, "nop"@) && s1.nop_streak + 1 == 4 {
        lemma_extends_push(a, s1.findings, nop_finding(k, t), k);
    }
}

proof fn lemma_second_extends(s: AuditState, k: int, t: Seq<char>)
    ensures
        extends_at(s.findings, audit_second(s, k, t).findings, k),
{
    let a = s.findings;
    lemma_extends_refl(a, k);
    let f2a = if is_match(RE_GETPC@, t) {
        AuditState { prev_getpc: true, ..s }
    } else if s.prev_getpc {
        match regex_captures(RE_AUDIT_POP@, t) {
            Some(c) => AuditState {
                prev_getpc: false,
                findings: s.findings.push(getpc_finding(k, t, group(c, 1))),
                ..s
            },
            None => AuditState { prev_getpc: false, ..s },
        }
    } else {
        s
    };
    if !is_match(RE_GETPC@, t) && s.prev_getpc {
        if let Some(c) = regex_captures(RE_AUDIT_POP@, t) {
            lemma_extends_push(a, a, getpc_finding(k, t, group(c, 1)), k);
        }
    }
    assert(extends_at(a, f2a.findings, k));
    if let Some(c) = regex_captures(RE_LARGE_STACK@, t) {
        if stack_imm(group(c, 2)) > 4096 {
            lemma_extends_push(a, f2a.findings, stack_finding(k, t, stack_imm(group(c, 2))), k);
        }
    }
}

proof fn lemma_third_extends(s: AuditState, ls: Seq<Seq<char>>, k: int, t: Seq<char>)
    ensures
        extends_at(s.findings, audit_third(s, ls, k - 1, t).findings, k),
{
    lemma_extends_refl(s.findings, k);
    if let Some(c) = regex_captures(RE_AUDIT_DIV@, t) {
        let d = unicode_lowercase(group(c, 2));
        if !guard_scan(ls, d, k - 1, 0) {
            lemma_extends_push(s.findings, s.findings, div_finding(k, t, d), k);
        }
    }
}

proof fn lemma_audit_line_extends(s: AuditState, ls: Seq<Seq<char>>, k: int, t: Seq<char>)
    ensures
        extends_at(audit_first(s, k, t).findings, audit_third(audit_second(audit_first(s, k, t), k, t), ls, k - 1, t).findings, k),
        extends_at(s.findings, audit_third(audit_second(audit_first(s, k, t), k, t), ls, k - 1, t).findings, k),
{
    let f1 = audit_first(s, k, t);
    let f2 = audit_second(f1, k, t);
    let f3 = audit_third(f2, ls, k - 1, t);
    lemma_first_extends(s, k, t);
    lemma_second_extends(f1, k, t);
    lemma_third_extends(f2, ls, k, t);
    lemma_extends_trans(f1.findings, f2.findings, f3.findings, k);
    lemma_extends_trans(s.findings, f1.findings, f3.findings, k);
}

proof fn lemma_audit_scan_grows(ls: Seq<Seq<char>>, j: int, k: int)
    requires
        0 <= j <= k <= ls.len(),
    ensures
        audit_scan(ls, j).findings.len() <= audit_scan(ls, k).findings.len(),
        audit_scan(ls, k).findings.take(audit_scan(ls, j).findings.len() as int) == audit_scan(ls, j).findings,
        forall|i: int| audit_scan(ls, j).findings.len() <= i < audit_scan(ls, k).findings.len() ==> {
            &&& #[trigger] audit_scan(ls, k).findings[i].risk_level != SafetyRiskLevel::Safe
            &&& j < audit_scan(ls, k).findings[i].line <= k
        },
    decreases k - j,
{
    let a = audit_scan(ls, j).findings;
    if j == k {
        assert(a.take(a.len() as int) =~= a);
    } else {
        lemma_audit_scan_grows(ls, j, k - 1);
        let m = audit_scan(ls, k - 1).findings;
        let b = audit_scan(ls, k).findings;
        let t = trim(ls[k - 1]);
        if audit_skipped(t) {
        } else {
            lemma_audit_line_extends(audit_scan(ls, k - 1), ls, k, t);
            assert(b.take(a.len() as int) =~= b.take(m.len() as int).take(a.len() as int));
            assert forall|i: int| a.len() <= i < b.len() implies {
                &&& #[trigger] b[i].risk_level != SafetyRiskLevel::Safe
                &&& j < b[i].line <= k
            } by {
                if i < m.len() {
                    assert(b[i] == b.take(m.len() as int)[i]);
                }
            }
        }
    }
}

/// What the audit reports follows its findings: no finding means `Safe`, a
/// `Dangerous` finding means a `Dangerous` report, and code counts as safe to
/// run exactly when no finding is `Dangerous` or `HighRisk` (a NOP sled, a
/// GetPC stub or an unprobed large stack allocation blocks it). Every finding
/// points at a line of the text and carries a risk above `Safe`.
pub proof fn law_audit_report_consistent(code: Seq<char>)
    ensures
        (audit_spec(code).findings.len() == 0) <==> (audit_spec(code).overall_risk == SafetyRiskLevel::Safe),
        audit_spec(code).is_executable_safely <==> (!has_level(audit_spec(code).findings, SafetyRiskLevel::Dangerous)
            && !has_level(audit_spec(code).findings, SafetyRiskLevel::HighRisk)),
        forall|i: int| 0 <= i < audit_spec(code).findings.len() ==> {
            &&& #[trigger] audit_spec(code).findings[i].risk_level != SafetyRiskLevel::Safe
            &&& 1 <= audit_spec(code).findings[i].line <= lines(code).len()
        },
{
    let ls = lines(code);
    lemma_audit_scan_grows(ls, 0, ls.len() as int);
    let fs = audit_spec(code).findings;
    if fs.len() > 0 {
        let l = fs[0].risk_level;
        assert(has_level(fs, l));
    }
}

/// A privileged instruction on any code line makes the whole report
/// `Dangerous`, and so not safe to execute.
pub proof fn law_privileged_line_is_dangerous(code: Seq<char>, k: int)
    requires
        0 <= k < lines(code).len(),
        !audit_skipped(trim(lines(code)[k])),
        regex_captures(RE_PRIVILEGED@, trim(lines(code)[k])) is Some,
    ensures
        audit_spec(code).overall_risk == SafetyRiskLevel::Dangerous,
        !audit_spec(code).is_executable_safely,
{
    let ls = lines(code);
    let t = trim(ls[k]);
    let s = audit_scan(ls, k);
    let c = regex_captures(RE_PRIVILEGED@, t)->Some_0;
    let f = priv_finding(k + 1, t, unicode_uppercase(group(c, 1)));
    let n = s.findings.len() as int;
    let f1 = audit_first(s, k + 1, t);
    lemma_first_extends(s, k + 1, t);
    lemma_audit_line_extends(s, ls, k + 1, t);
    let after = audit_scan(ls, k + 1).findings;
    assert(after == audit_third(audit_second(f1, k + 1, t), ls, k, t).findings);
    assert(f1.findings.len() > n);
    assert(after[n] == after.take(f1.findings.len() as int)[n]);
    assert(after[n] == f);
    lemma_audit_scan_grows(ls, k + 1, ls.len() as int);
    let fs = audit_spec(code).findings;
    assert(fs[n] == fs.take(after.len() as int)[n]);
    assert(fs[n].risk_level == SafetyRiskLevel::Dangerous);
    assert(has_level(fs, SafetyRiskLevel::Dangerous));
}


/// A finding of level `r` in `a` is still one in any `b` that extends `a`.
proof fn lemma_level_kept(a: Seq<Finding>, b: Seq<Finding>, ln: int, r: SafetyRiskLevel)
    requires
        extends_at(a, b, ln),
        has_level(a, r),
    ensures
        has_level(b, r),
{
    let k = choose|k: int| 0 <= k < a.len() && #[trigger] a[k].risk_level == r;
    assert(b[k] == b.take(a.len() as int)[k]);
}

/// A `HighRisk` finding after some lines is one in the whole report, which
/// then blocks execution.
proof fn lemma_high_risk_blocks(code: Seq<char>, j: int)
    requires
        0 <= j <= lines(code).len(),
        has_level(audit_scan(lines(code), j).findings, SafetyRiskLevel::HighRisk),
    ensures
        !audit_spec(code).is_executable_safely,
{
    let ls = lines(code);
    lemma_audit_scan_grows(ls, j, ls.len() as int);
    let a = audit_scan(ls, j).findings;
    let fs = audit_scan(ls, ls.len() as int).findings;
    let k = choose|k: int| 0 <= k < a.len() && #[trigger] a[k].risk_level == SafetyRiskLevel::HighRisk;
    assert(fs[k] == fs.take(a.len() as int)[k]);
    assert(has_level(fs, SafetyRiskLevel::HighRisk));
}

/// An unprobed stack allocation of more than a page on any code line blocks
/// the code from being run.
pub proof fn law_unprobed_stack_blocks(code: Seq<char>, k: int)
    requires
        0 <= k < lines(code).len(),
        !audit_skipped(trim(lines(code)[k])),
        regex_captures(RE_LARGE_STACK@, trim(lines(code)[k])) matches Some(c) && stack_imm(group(c, 2)) > 4096,
    ensures
        !audit_spec(code).is_executable_safely,
{
    let ls = lines(code);
    let t = trim(ls[k]);
    let s = audit_scan(ls, k);
    let f1 = audit_first(s, k + 1, t);
    let f2 = audit_second(f1, k + 1, t);
    let c = regex_captures(RE_LARGE_STACK@, t)->0;
    assert(f2.findings.last() == stack_finding(k + 1, t, stack_imm(group(c, 2))));
    assert(f2.findings[f2.findings.len() - 1].risk_level == SafetyRiskLevel::HighRisk);
    assert(has_level(f2.findings, SafetyRiskLevel::HighRisk));
    lemma_third_extends(f2, ls, k + 1, t);
    lemma_level_kept(f2.findings, audit_scan(ls, k + 1).findings, k + 1, SafetyRiskLevel::HighRisk);
    lemma_high_risk_blocks(code, k + 1);
}

/// A GetPC stub (`call $+5` and then `pop reg` on the next code line)
/// blocks the code from being run.
pub proof fn law_getpc_stub_blocks(code: Seq<char>, k: int)
    requires
        0 <= k,
        k + 1 < lines(code).len(),
        !audit_skipped(trim(lines(code)[k])),
        !audit_skipped(trim(lines(code)[k + 1])),
        is_match(RE_GETPC@, trim(lines(code)[k])),
        !is_match(RE_GETPC@, trim(lines(code)[k + 1])),
        regex_captures(RE_AUDIT_POP@, trim(lines(code)[k + 1])) is Some,
    ensures
        !audit_spec(code).is_executable_safely,
{
    let ls = lines(code);
    let t = trim(ls[k + 1]);
    let s = audit_scan(ls, k + 1);
    assert(s.prev_getpc);
    let f1 = audit_first(s, k + 2, t);
    let c = regex_captures(RE_AUDIT_POP@, t)->0;
    let a = f1.findings.push(getpc_finding(k + 2, t, group(c, 1)));
    assert(a[a.len() - 1].risk_level == SafetyRiskLevel::HighRisk);
    let f2 = audit_second(f1, k + 2, t);
    assert(f2.findings == a || f2.findings == a.push(f2.findings.last()));
    assert(f2.findings[a.len() - 1] == a[a.len() - 1]);
    assert(has_level(f2.findings, SafetyRiskLevel::HighRisk));
    lemma_third_extends(f2, ls, k + 2, t);
    lemma_level_kept(f2.findings, audit_scan(ls, k + 2).findings, k + 2, SafetyRiskLevel::HighRisk);
    lemma_high_risk_blocks(code, k + 2);
}

/// Whether a trimmed line is a bare `nop`, in any case.
pub open spec fn is_nop_line(t: Seq<char>) -> bool {
    eq_ignore_ascii_case(t, "nop"@)
}

proof fn lemma_nop_streak(ls: Seq<Seq<char>>, j: int)
    requires
        0 <= j <= ls.len(),
    ensures
        audit_scan(ls, j).nop_streak >= 0,
        audit_scan(ls, j).nop_streak >= 4 ==> has_level(audit_scan(ls, j).findings, SafetyRiskLevel::HighRisk),
        0 < j && is_nop_line(trim(ls[j - 1])) ==> audit_scan(ls, j).nop_streak == audit_scan(ls, j - 1).nop_streak + 1,
    decreases j,
{
    reveal_strlit("nop");
    reveal_strlit(";");
    reveal_strlit("#");
    reveal_strlit("//");
    if j > 0 {
        lemma_nop_streak(ls, j - 1);
        let s = audit_scan(ls, j - 1);
        let t = trim(ls[j - 1]);
        if is_nop_line(t) {
            assert(t.len() == 3);
            assert(ascii_lower(t[0]) == 'n');
            assert(t[0] != ';' && t[0] != '#' && t[0] != '/');
            assert(t.subrange(0, 1)[0] == t[0]);
            assert(t.subrange(0, 2)[0] == t[0]);
            assert(t.subrange(0, 1) != ";"@);
            assert(t.subrange(0, 1) != "#"@);
            assert(t.subrange(0, 2) != "//"@);
            assert(!audit_skipped(t));
        }
        if !audit_skipped(t) {
            let f1 = audit_first(s, j, t);
            let f2 = audit_second(f1, j, t);
            lemma_first_extends(s, j, t);
            lemma_second_extends(f1, j, t);
            lemma_third_extends(f2, ls, j, t);
            if f1.nop_streak >= 4 {
                if s.nop_streak >= 4 {
                    lemma_level_kept(s.findings, f1.findings, j, SafetyRiskLevel::HighRisk);
                } else {
                    assert(f1.findings.last().risk_level == SafetyRiskLevel::HighRisk);
                    assert(has_level(f1.findings, SafetyRiskLevel::HighRisk));
                }
                lemma_level_kept(f1.findings, f2.findings, j, SafetyRiskLevel::HighRisk);
                lemma_level_kept(f2.findings, audit_scan(ls, j).findings, j, SafetyRiskLevel::HighRisk);
            }
        }
    }
}

/// A NOP sled (four consecutive `nop` lines) blocks the code from being run.
pub proof fn law_nop_sled_blocks(code: Seq<char>, k: int)
    requires
        3 <= k < lines(code).len(),
        forall|j: int| k - 3 <= j <= k ==> is_nop_line(#[trigger] trim(lines(code)[j])),
    ensures
        !audit_spec(code).is_executable_safely,
{
    let ls = lines(code);
    assert(is_nop_line(trim(ls[k - 3])));
    assert(is_nop_line(trim(ls[k - 2])));
    assert(is_nop_line(trim(ls[k - 1])));
    assert(is_nop_line(trim(ls[k])));
    lemma_nop_streak(ls, k - 3);
    lemma_nop_streak(ls, k - 2);
    lemma_nop_streak(ls, k - 1);
    lemma_nop_streak(ls, k);
    lemma_nop_streak(ls, k + 1);
    lemma_high_risk_blocks(code, k + 1);
}

/// The number of code lines (lines the auditor does not pass over) among
/// lines `lo` to `hi - 1` (from 0).
pub open spec fn code_line_count(ls: Seq<Seq<char>>, lo: int, hi: int) -> int
    decreases hi - lo,
{
    if hi <= lo {
        0
    } else {
        code_line_count(ls, lo, hi - 1) + if audit_skipped(trim(ls[hi - 1])) { 0int } else { 1int }
    }
}

/// Whether a lower-case line compares `d` with zero or tests it against itself.
pub open spec fn tests_divisor(pl: Seq<char>, d: Seq<char>) -> bool {
    ||| contains_seq(pl, "cmp "@ + d + ", 0"@)
    ||| contains_seq(pl, "cmp "@ + d + ",0"@)
    ||| contains_seq(pl, "test "@ + d + ", "@ + d)
    ||| contains_seq(pl, "test "@ + d + ","@ + d)
}

proof fn lemma_code_line_count_nonneg(ls: Seq<Seq<char>>, lo: int, hi: int)
    ensures
        code_line_count(ls, lo, hi) >= 0,
    decreases hi - lo,
{
    if hi > lo {
        lemma_code_line_count_nonneg(ls, lo, hi - 1);
    }
}

proof fn lemma_guard_found(ls: Seq<Seq<char>>, d: Seq<char>, j: int, jj: int, c: int)
    requires
        0 <= j < jj <= ls.len(),
        0 <= c,
        !audit_skipped(trim(ls[j])),
        tests_divisor(unicode_lowercase(trim(ls[j])), d),
        c + code_line_count(ls, j + 1, jj) <= 24,
    ensures
        guard_scan(ls, d, jj, c),
    decreases jj,
{
    let p = trim(ls[jj - 1]);
    let pl = unicode_lowercase(p);
    if jj - 1 == j {
        assert(zero_test(pl, d));
    } else {
        lemma_code_line_count_nonneg(ls, j + 1, jj - 1);
        if audit_skipped(p) {
            lemma_guard_found(ls, d, j, jj - 1, c);
        } else if zero_test(pl, d) || nonzero_mov(pl, d) {
        } else {
            assert(c + 1 < 25);
            lemma_guard_found(ls, d, j, jj - 1, c + 1);
        }
    }
}

/// No finding past `a` in `b` is an unguarded division.
pub open spec fn no_division_after(a: Seq<Finding>, b: Seq<Finding>) -> bool {
    forall|i: int| a.len() <= i < b.len() ==> (#[trigger] b[i]).category != "UNCHECKED_DIVISION_HAZARD"@
}

proof fn lemma_other_categories()
    ensures
        "PRIVILEGED_INSTRUCTION"@ != "UNCHECKED_DIVISION_HAZARD"@,
        "NOP_SLED_DETECTED"@ != "UNCHECKED_DIVISION_HAZARD"@,
        "POSITION_INDEPENDENT_GETPC_STUB"@ != "UNCHECKED_DIVISION_HAZARD"@,
        "UNPROBED_LARGE_STACK_ALLOCATION"@ != "UNCHECKED_DIVISION_HAZARD"@,
{
    reveal_strlit("PRIVILEGED_INSTRUCTION");
    reveal_strlit("NOP_SLED_DETECTED");
    reveal_strlit("POSITION_INDEPENDENT_GETPC_STUB");
    reveal_strlit("UNPROBED_LARGE_STACK_ALLOCATION");
    reveal_strlit("UNCHECKED_DIVISION_HAZARD");
    assert("PRIVILEGED_INSTRUCTION"@[0] != "UNCHECKED_DIVISION_HAZARD"@[0]);
    assert("NOP_SLED_DETECTED"@[0] != "UNCHECKED_DIVISION_HAZARD"@[0]);
    assert("POSITION_INDEPENDENT_GETPC_STUB"@[0] != "UNCHECKED_DIVISION_HAZARD"@[0]);
    assert("UNPROBED_LARGE_STACK_ALLOCATION"@[2] != "UNCHECKED_DIVISION_HAZARD"@[2]);
}

proof fn lemma_first_second_no_division(s: AuditState, k: int, t: Seq<char>)
    ensures
        no_division_after(s.findings, audit_second(audit_first(s, k, t), k, t).findings),
{
    lemma_other_categories();
    let a = s.findings;
    let f1 = audit_first(s, k, t);
    let f2 = audit_second(f1, k, t);
    lemma_first_extends(s, k, t);
    lemma_second_extends(f1, k, t);
    let s1 = match regex_captures(RE_PRIVILEGED@, t) {
        Some(c) => AuditState { findings: s.findings.push(priv_finding(k, t, unicode_uppercase(group(c, 1)))), ..s },
        None => s,
    };
    assert(no_division_after(a, s1.findings));
    assert(no_division_after(a, f1.findings));
    assert(no_division_after(a, f2.findings)) by {
        assert forall|i: int| a.len() <= i < f2.findings.len() implies (#[trigger] f2.findings[i]).category != "UNCHECKED_DIVISION_HAZARD"@ by {
            if i < f1.findings.len() {
                assert(f2.findings[i] == f2.findings.take(f1.findings.len() as int)[i]);
            }
        }
    }
}

/// A division whose divisor is compared with zero (`cmp d, 0`, `cmp d,0`)
/// or tested against itself (`test d, d`, `test d,d`) on an earlier code line
/// within the auditor's look-back (at most 24 code lines in between) is not
/// reported as an unguarded division.
pub proof fn law_tested_divisor_not_reported(code: Seq<char>, k: int, j: int)
    requires
        0 <= j < k < lines(code).len(),
        !audit_skipped(trim(lines(code)[k])),
        regex_captures(RE_AUDIT_DIV@, trim(lines(code)[k])) is Some,
        !audit_skipped(trim(lines(code)[j])),
        tests_divisor(
            unicode_lowercase(trim(lines(code)[j])),
            unicode_lowercase(group(regex_captures(RE_AUDIT_DIV@, trim(lines(code)[k]))->0, 2)),
        ),
        code_line_count(lines(code), j + 1, k) <= 24,
    ensures
        forall|i: int| 0 <= i < audit_spec(code).findings.len() && (#[trigger] audit_spec(code).findings[i]).line == k + 1
            ==> audit_spec(code).findings[i].category != "UNCHECKED_DIVISION_HAZARD"@,
{
    let ls = lines(code);
    let t = trim(ls[k]);
    let d = unicode_lowercase(group(regex_captures(RE_AUDIT_DIV@, t)->0, 2));
    lemma_guard_found(ls, d, j, k, 0);
    let s = audit_scan(ls, k);
    let f2 = audit_second(audit_first(s, k + 1, t), k + 1, t);
    assert(audit_scan(ls, k + 1) == audit_third(f2, ls, k, t));
    assert(audit_scan(ls, k + 1).findings == f2.findings);
    lemma_first_second_no_division(s, k + 1, t);
    lemma_audit_scan_grows(ls, 0, k);
    lemma_audit_scan_grows(ls, k, k + 1);
    lemma_audit_scan_grows(ls, k + 1, ls.len() as int);
    let a = s.findings;
    let b = f2.findings;
    let fs = audit_spec(code).findings;
    assert(audit_scan(ls, 0).findings.len() == 0);
    assert forall|i: int| 0 <= i < fs.len() && (#[trigger] fs[i]).line == k + 1
        implies fs[i].category != "UNCHECKED_DIVISION_HAZARD"@ by {
        if i < b.len() {
            assert(fs[i] == fs.take(b.len() as int)[i]);
            if i < a.len() {
                assert(b[i] == b.take(a.len() as int)[i]);
                assert(a[i].risk_level != SafetyRiskLevel::Safe);
                assert(a[i].line <= k);
            } else {
                assert(no_division_after(a, b));
                assert(b[i].category != "UNCHECKED_DIVISION_HAZARD"@);
            }
        } else {
            assert(fs[i].risk_level != SafetyRiskLevel::Safe);
            assert(fs[i].line > k + 1);
        }
    }
}

/// No finding past `a` in `b` is an unprobed stack allocation.
pub open spec fn no_stack_after(a: Seq<Finding>, b: Seq<Finding>) -> bool {
    forall|i: int| a.len() <= i < b.len() ==> (#[trigger] b[i]).category != "UNPROBED_LARGE_STACK_ALLOCATION"@
}

proof fn lemma_other_than_stack()
    ensures
        "PRIVILEGED_INSTRUCTION"@ != "UNPROBED_LARGE_STACK_ALLOCATION"@,
        "NOP_SLED_DETECTED"@ != "UNPROBED_LARGE_STACK_ALLOCATION"@,
        "POSITION_INDEPENDENT_GETPC_STUB"@ != "UNPROBED_LARGE_STACK_ALLOCATION"@,
        "UNCHECKED_DIVISION_HAZARD"@ != "UNPROBED_LARGE_STACK_ALLOCATION"@,
{
    reveal_strlit("PRIVILEGED_INSTRUCTION");
    reveal_strlit("NOP_SLED_DETECTED");
    reveal_strlit("POSITION_INDEPENDENT_GETPC_STUB");
    reveal_strlit("UNPROBED_LARGE_STACK_ALLOCATION");
    reveal_strlit("UNCHECKED_DIVISION_HAZARD");
    assert("PRIVILEGED_INSTRUCTION"@[0] != "UNPROBED_LARGE_STACK_ALLOCATION"@[0]);
    assert("NOP_SLED_DETECTED"@[0] != "UNPROBED_LARGE_STACK_ALLOCATION"@[0]);
    assert("POSITION_INDEPENDENT_GETPC_STUB"@[0] != "UNPROBED_LARGE_STACK_ALLOCATION"@[0]);
    assert("UNCHECKED_DIVISION_HAZARD"@[2] != "UNPROBED_LARGE_STACK_ALLOCATION"@[2]);
}

proof fn lemma_line_no_stack(s: AuditState, ls: Seq<Seq<char>>, k: int, t: Seq<char>)
    requires
        regex_captures(RE_LARGE_STACK@, t) matches Some(c) ==> stack_imm(group(c, 2)) <= 4096,
    ensures
        no_stack_after(s.findings, audit_third(audit_second(audit_first(s, k, t), k, t), ls, k - 1, t).findings),
{
    lemma_other_than_stack();
    let a = s.findings;
    let f1 = audit_first(s, k, t);
    let f2 = audit_second(f1, k, t);
    let f3 = audit_third(f2, ls, k - 1, t);
    lemma_first_extends(s, k, t);
    lemma_second_extends(f1, k, t);
    lemma_third_extends(f2, ls, k, t);
    let s1 = match regex_captures(RE_PRIVILEGED@, t) {
        Some(c) => AuditState { findings: s.findings.push(priv_finding(k, t, unicode_uppercase(group(c, 1)))), ..s },
        None => s,
    };
    assert(no_stack_after(a, s1.findings));
    assert(no_stack_after(a, f1.findings));
    assert(no_stack_after(f1.findings, f2.findings));
    assert(no_stack_after(f2.findings, f3.findings));
    assert forall|i: int| a.len() <= i < f3.findings.len() implies (#[trigger] f3.findings[i]).category != "UNPROBED_LARGE_STACK_ALLOCATION"@ by {
        if i < f2.findings.len() {
            assert(f3.findings[i] == f3.findings.take(f2.findings.len() as int)[i]);
            if i < f1.findings.len() {
                assert(f2.findings[i] == f2.findings.take(f1.findings.len() as int)[i]);
            }
        }
    }
}

/// A stack allocation of at most one page (4096 bytes) is not reported as
/// unprobed: no finding on that line is an unprobed stack allocation.
pub proof fn law_page_sized_stack_not_reported(code: Seq<char>, k: int)
    requires
        0 <= k < lines(code).len(),
        regex_captures(RE_LARGE_STACK@, trim(lines(code)[k])) matches Some(c) ==> stack_imm(group(c, 2)) <= 4096,
    ensures
        forall|i: int| 0 <= i < audit_spec(code).findings.len() && (#[trigger] audit_spec(code).findings[i]).line == k + 1
            ==> audit_spec(code).findings[i].category != "UNPROBED_LARGE_STACK_ALLOCATION"@,
{
    let ls = lines(code);
    let t = trim(ls[k]);
    let s = audit_scan(ls, k);
    lemma_audit_scan_grows(ls, 0, k);
    lemma_audit_scan_grows(ls, k, k + 1);
    lemma_audit_scan_grows(ls, k + 1, ls.len() as int);
    let a = s.findings;
    let b = audit_scan(ls, k + 1).findings;
    if !audit_skipped(t) {
        lemma_line_no_stack(s, ls, k + 1, t);
        assert(no_stack_after(a, b));
    } else {
        assert(b == a);
    }
    let fs = audit_spec(code).findings;
    assert(audit_scan(ls, 0).findings.len() == 0);
    assert forall|i: int| 0 <= i < fs.len() && (#[trigger] fs[i]).line == k + 1
        implies fs[i].category != "UNPROBED_LARGE_STACK_ALLOCATION"@ by {
        if i < b.len() {
            assert(fs[i] == fs.take(b.len() as int)[i]);
            if i < a.len() {
                assert(b[i] == b.take(a.len() as int)[i]);
                assert(a[i].risk_level != SafetyRiskLevel::Safe);
                assert(a[i].line <= k);
            }
        } else {
            assert(fs[i].risk_level != SafetyRiskLevel::Safe);
            assert(fs[i].line > k + 1);
        }
    }
}

/// What a request to run code is answered when its audit blocks it; `None`
/// when the audit lets it run.
pub fn execution_block_message(report: &SafetyReport) -> (m: Option<String>)
    ensures
        match m {
            Some(t) => !report.is_executable_safely && t@ == "Execution blocked by Safety Guardrail: "@ + report.summary@,
            None => report.is_executable_safely,
        },
{
    if report.is_executable_safely {
        None
    } else {
        let mut t = chars_of("Execution blocked by Safety Guardrail: ");
        append(&mut t, &crate::text::chars_of_string(&report.summary));
        Some(string_of(&t))
    }
}


// ---------------------------------------------------------------------------
// Kernel and bare-metal code.

/// What the driver-hazard scan has gathered after some lines.
pub struct DriverState {
    pub cli_line: Option<int>,
    pub label: Option<Seq<char>>,
    pub paused: bool,
    pub findings: Seq<Finding>,
}

pub open spec fn cli_finding(ln: int, t: Seq<char>, cli: int) -> Finding {
    finding(
        "CLI_WITHOUT_STI"@,
        SafetyRiskLevel::HighRisk,
        ln,
        t,
        "Interrupts disabled by 'cli' on line "@ + decimal(cli)
            + " are not re-enabled before this return. Returning with interrupts masked hangs the system or loses interrupts."@,
        MIT_CLI_WITHOUT_STI@,
    )
}

pub open spec fn spin_finding(ln: int, t: Seq<char>, label: Seq<char>) -> Finding {
    finding(
        "SPINLOCK_WITHOUT_PAUSE"@,
        SafetyRiskLevel::Caution,
        ln,
        t,
        DESC_SPIN_WITHOUT_PAUSE@,
        "Insert 'pause' in the loop body before jumping back to '"@ + label + "'."@,
    )
}

/// Interrupt masking: `cli` opens, `sti`/`popfq`/`popf` closes, and a `ret`
/// while open is a finding.
pub open spec fn driver_irq(s: DriverState, ln: int, t: Seq<char>) -> DriverState {
    if eq_ignore_ascii_case(t, "cli"@) {
        DriverState { cli_line: Some(ln), ..s }
    } else if eq_ignore_ascii_case(t, "sti"@) || eq_ignore_ascii_case(t, "popfq"@) || eq_ignore_ascii_case(t, "popf"@) {
        DriverState { cli_line: None, ..s }
    } else if eq_ignore_ascii_case(t, "ret"@) {
        match s.cli_line {
            Some(c) => DriverState { cli_line: None, findings: s.findings.push(cli_finding(ln, t, c)), ..s },
            None => s,
        }
    } else {
        s
    }
}

/// Spin loops: a jump back to the latest label with no `pause` since it.
pub open spec fn driver_spin(s: DriverState, ln: int, t: Seq<char>) -> DriverState {
    let s1 = match regex_captures(RE_LABEL@, t) {
        Some(c) => DriverState { label: Some(group(c, 1)), paused: false, ..s },
        None => s,
    };
    let s2 = if eq_ignore_ascii_case(t, "pause"@) { DriverState { paused: true, ..s1 } } else { s1 };
    match regex_captures(RE_JUMP@, t) {
        Some(c) => if s2.label == Some(group(c, 1)) && !s2.paused {
            DriverState { findings: s2.findings.push(spin_finding(ln, t, group(c, 1))), ..s2 }
        } else {
            s2
        },
        None => s2,
    }
}

pub open spec fn driver_initial() -> DriverState {
    DriverState { cli_line: None, label: None, paused: false, findings: Seq::empty() }
}

/// The driver-hazard scan after the first `k` lines of `ls`.
pub open spec fn driver_scan(ls: Seq<Seq<char>>, k: int) -> DriverState
    decreases k,
{
    if k <= 0 || k > ls.len() {
        driver_initial()
    } else {
        let s = driver_scan(ls, k - 1);
        let t = trim(ls[k - 1]);
        if audit_skipped(t) {
            s
        } else {
            driver_spin(driver_irq(s, k, t), k, t)
        }
    }
}

/// The findings without the privileged-instruction ones.
pub open spec fn drop_privileged(fs: Seq<Finding>) -> Seq<Finding>
    decreases fs.len(),
{
    if fs.len() == 0 {
        Seq::empty()
    } else if fs.last().category == "PRIVILEGED_INSTRUCTION"@ {
        drop_privileged(fs.drop_last())
    } else {
        drop_privileged(fs.drop_last()).push(fs.last())
    }
}

/// What an audit for an execution context reports: in user mode the audit;
/// in kernel and bare-metal mode Ring 0 instructions are permitted, the
/// exploit-pattern, stack and division checks stay, and interrupt leaks
/// and spin loops without `pause` are reported.
pub open spec fn audit_mode_spec(code: Seq<char>, mode: ExecutionMode) -> Report {
    let ls = lines(code);
    if mode == ExecutionMode::User {
        audit_spec(code)
    } else {
        report_of(drop_privileged(audit_scan(ls, ls.len() as int).findings) + driver_scan(ls, ls.len() as int).findings)
    }
}

/// The driver-hazard scan, as computed; the findings start after those given.
pub struct DriverScan {
    pub cli_line: Option<usize>,
    pub label: Option<Vec<char>>,
    pub paused: bool,
    pub findings: Vec<SafetyFinding>,
}

pub open spec fn opt_line_spec(o: Option<usize>) -> Option<int> {
    match o {
        Some(v) => Some(v as int),
        None => None,
    }
}

pub open spec fn opt_label_spec(o: Option<Vec<char>>) -> Option<Seq<char>> {
    match o {
        Some(v) => Some(v@),
        None => None,
    }
}

fn cli_finding_exec(ln: usize, t: &Vec<char>, cli: usize) -> (f: SafetyFinding)
    ensures
        f@ == cli_finding(ln as int, t@, cli as int),
{
    let mut desc = chars_of("Interrupts disabled by 'cli' on line ");
    append(&mut desc, &fmt_u64(cli as u64));
    append_str(&mut desc, " are not re-enabled before this return. Returning with interrupts masked hangs the system or loses interrupts.");
    make_finding("CLI_WITHOUT_STI", SafetyRiskLevel::HighRisk, ln, t, &desc, &chars_of(MIT_CLI_WITHOUT_STI))
}

fn spin_finding_exec(ln: usize, t: &Vec<char>, label: &Vec<char>) -> (f: SafetyFinding)
    ensures
        f@ == spin_finding(ln as int, t@, label@),
{
    let mut mit = chars_of("Insert 'pause' in the loop body before jumping back to '");
    append(&mut mit, label);
    append_str(&mut mit, "'.");
    make_finding("SPINLOCK_WITHOUT_PAUSE", SafetyRiskLevel::Caution, ln, t, &chars_of(DESC_SPIN_WITHOUT_PAUSE), &mit)
}

fn driver_line(st: &mut DriverScan, ln: usize, t: &Vec<char>, Ghost(base): Ghost<Seq<Finding>>, Ghost(s): Ghost<DriverState>)
    requires
        opt_line_spec(old(st).cli_line) == s.cli_line,
        opt_label_spec(old(st).label) == s.label,
        old(st).paused == s.paused,
        findings_view(old(st).findings@) == base + s.findings,
    ensures
        opt_line_spec(final(st).cli_line) == driver_spin(driver_irq(s, ln as int, t@), ln as int, t@).cli_line,
        opt_label_spec(final(st).label) == driver_spin(driver_irq(s, ln as int, t@), ln as int, t@).label,
        final(st).paused == driver_spin(driver_irq(s, ln as int, t@), ln as int, t@).paused,
        findings_view(final(st).findings@) == base + driver_spin(driver_irq(s, ln as int, t@), ln as int, t@).findings,
{
    let ghost s1 = driver_irq(s, ln as int, t@);
    if eq_ignore_ascii_case_exec(t, &chars_of("cli")) {
        st.cli_line = Some(ln);
    } else if eq_ignore_ascii_case_exec(t, &chars_of("sti")) || eq_ignore_ascii_case_exec(t, &chars_of("popfq"))
        || eq_ignore_ascii_case_exec(t, &chars_of("popf")) {
        st.cli_line = None;
    } else if eq_ignore_ascii_case_exec(t, &chars_of("ret")) {
        match st.cli_line {
            Some(c) => {
                let f = cli_finding_exec(ln, t, c);
                push_finding(&mut st.findings, f);
                st.cli_line = None;
                proof {
                    assert(base + s.findings.push(f@) =~= (base + s.findings).push(f@));
                }
            },
            None => {},
        }
    }
    let ghost s2 = match regex_captures(RE_LABEL@, t@) {
        Some(c) => DriverState { label: Some(group(c, 1)), paused: false, ..s1 },
        None => s1,
    };
    match captures(RE_LABEL, t) {
        Some(c) => {
            st.label = Some(group_of(&c, 1));
            st.paused = false;
        },
        None => {},
    }
    if eq_ignore_ascii_case_exec(t, &chars_of("pause")) {
        st.paused = true;
    }
    let ghost s3 = if eq_ignore_ascii_case(t@, "pause"@) { DriverState { paused: true, ..s2 } } else { s2 };
    match captures(RE_JUMP, t) {
        Some(c) => {
            let target = group_of(&c, 1);
            let back = match &st.label {
                Some(l) => eq_chars(l, &target),
                None => false,
            };
            if back && !st.paused {
                let f = spin_finding_exec(ln, t, &target);
                push_finding(&mut st.findings, f);
                proof {
                    assert(base + s3.findings.push(f@) =~= (base + s3.findings).push(f@));
                }
            }
        },
        None => {},
    }
}

impl SafetyGuardrails {
    /// Audits a source text for an execution context. User mode is `audit`;
    /// kernel and bare-metal mode permit Ring 0 instructions and also report
    /// interrupts left disabled at a return and spin loops without `pause`.
    #[verifier::spinoff_prover]
    pub fn audit_with_mode(&self, assembly_code: &str, mode: ExecutionMode) -> (report: SafetyReport)
        ensures
            report@ == audit_mode_spec(assembly_code@, mode),
    {
        let base = self.audit(assembly_code);
        if mode == ExecutionMode::User {
            return base;
        }
        let kept = drop_privileged_exec(&base.findings);
        let ghost kept_view = findings_view(kept@);
        let code = chars_of(assembly_code);
        let ls = split_lines(&code);
        let mut st = DriverScan { cli_line: None, label: None, paused: false, findings: kept };
        proof {
            assert(kept_view + driver_initial().findings =~= kept_view);
        }
        let mut i: usize = 0;
        while i < ls.len()
            invariant
                i <= ls.len(),
                ls.deep_view() == lines(code@),
                code@ == assembly_code@,
                opt_line_spec(st.cli_line) == driver_scan(ls.deep_view(), i as int).cli_line,
                opt_label_spec(st.label) == driver_scan(ls.deep_view(), i as int).label,
                st.paused == driver_scan(ls.deep_view(), i as int).paused,
                findings_view(st.findings@) == kept_view + driver_scan(ls.deep_view(), i as int).findings,
            decreases ls.len() - i,
        {
            let t = trim_chars(&ls[i]);
            proof {
                assert(ls.deep_view()[i as int] == ls[i as int]@);
            }
            if !audit_skipped_exec(&t) {
                driver_line(&mut st, i + 1, &t, Ghost(kept_view), Ghost(driver_scan(ls.deep_view(), i as int)));
            }
            i = i + 1;
        }
        report_from(st.findings)
    }
}

fn copy_finding(f: &SafetyFinding) -> (g: SafetyFinding)
    ensures
        g@ == f@,
{
    SafetyFinding {
        category: f.category.clone(),
        risk_level: f.risk_level,
        line: f.line,
        instruction: f.instruction.clone(),
        description: f.description.clone(),
        mitigation: f.mitigation.clone(),
    }
}

fn drop_privileged_exec(fs: &Vec<SafetyFinding>) -> (out: Vec<SafetyFinding>)
    ensures
        findings_view(out@) == drop_privileged(findings_view(fs@)),
{
    let mut out: Vec<SafetyFinding> = Vec::new();
    let mut k: usize = 0;
    proof {
        assert(findings_view(fs@).take(0) =~= Seq::<Finding>::empty());
        assert(findings_view(out@) =~= Seq::<Finding>::empty());
    }
    while k < fs.len()
        invariant
            k <= fs.len(),
            findings_view(out@) == drop_privileged(findings_view(fs@).take(k as int)),
        decreases fs.len() - k,
    {
        let ghost before = findings_view(fs@).take(k as int);
        proof {
            assert(findings_view(fs@).take(k + 1).drop_last() =~= before);
            assert(findings_view(fs@).take(k + 1).last() == fs@[k as int]@);
        }
        if !eq_str(&chars_of_string(&fs[k].category), "PRIVILEGED_INSTRUCTION") {
            push_finding(&mut out, copy_finding(&fs[k]));
        }
        k = k + 1;
    }
    proof {
        assert(findings_view(fs@).take(fs.len() as int) =~= findings_view(fs@));
    }
    out
}

/// In kernel and bare-metal mode Ring 0 instructions are permitted: no
/// finding is a privileged-instruction finding, and user mode is the audit.
pub proof fn law_kernel_mode_permits_ring0(code: Seq<char>, mode: ExecutionMode)
    ensures
        mode == ExecutionMode::User ==> audit_mode_spec(code, mode) == audit_spec(code),
        mode != ExecutionMode::User ==> forall|i: int| 0 <= i < audit_mode_spec(code, mode).findings.len()
            ==> (#[trigger] audit_mode_spec(code, mode).findings[i]).category != "PRIVILEGED_INSTRUCTION"@,
{
    if mode != ExecutionMode::User {
        let ls = lines(code);
        let a = drop_privileged(audit_scan(ls, ls.len() as int).findings);
        let b = driver_scan(ls, ls.len() as int).findings;
        lemma_drop_privileged(audit_scan(ls, ls.len() as int).findings);
        lemma_driver_categories(ls, ls.len() as int);
        assert forall|i: int| 0 <= i < (a + b).len() implies (#[trigger] (a + b)[i]).category != "PRIVILEGED_INSTRUCTION"@ by {
            if i < a.len() {
                assert((a + b)[i] == a[i]);
            } else {
                assert((a + b)[i] == b[i - a.len()]);
            }
        }
    }
}

proof fn lemma_drop_privileged(fs: Seq<Finding>)
    ensures
        forall|i: int| 0 <= i < drop_privileged(fs).len() ==> (#[trigger] drop_privileged(fs)[i]).category != "PRIVILEGED_INSTRUCTION"@,
    decreases fs.len(),
{
    if fs.len() > 0 {
        lemma_drop_privileged(fs.drop_last());
    }
}

proof fn lemma_driver_categories(ls: Seq<Seq<char>>, k: int)
    ensures
        forall|i: int| 0 <= i < driver_scan(ls, k).findings.len() ==> (#[trigger] driver_scan(ls, k).findings[i]).category != "PRIVILEGED_INSTRUCTION"@,
    decreases k,
{
    reveal_strlit("PRIVILEGED_INSTRUCTION");
    reveal_strlit("CLI_WITHOUT_STI");
    reveal_strlit("SPINLOCK_WITHOUT_PAUSE");
    if k > 0 && k <= ls.len() {
        lemma_driver_categories(ls, k - 1);
        assert("CLI_WITHOUT_STI"@ != "PRIVILEGED_INSTRUCTION"@) by {
            assert("CLI_WITHOUT_STI"@[0] != "PRIVILEGED_INSTRUCTION"@[0]);
        }
        assert("SPINLOCK_WITHOUT_PAUSE"@ != "PRIVILEGED_INSTRUCTION"@) by {
            assert("SPINLOCK_WITHOUT_PAUSE"@[0] != "PRIVILEGED_INSTRUCTION"@[0]);
        }
    }
}

} // verus!
