//! Static ABI linter for AArch64 assembly (AAPCS64).
use vstd::prelude::*;
use crate::linter::common::{bool_text, bool_text_exec, cut_at_char, cut_at_char_exec, cut_at_seq, cut_at_str_exec, diag};
use crate::pattern::{captures, group, group_of, is_match, is_match_exec, regex_captures};
use crate::text::{
    append, append_str, chars_of, contains_text, ends_with, ends_with_exec, lines, push_text,
    split_lines, starts_with, starts_with_exec, to_lowercase, trim, trim_chars, unicode_lowercase,
};
use crate::types::{make_diag, push_diag, CallingConvention, Diag, LintDiagnostic, Severity, diags_view};

verus! {

pub const ARM_RE_STP: &'static str = r"(?i)^\s*stp\s+([a-z0-9]+),\s*([a-z0-9]+)";
pub const ARM_RE_LDP: &'static str = r"(?i)^\s*ldp\s+([a-z0-9]+),\s*([a-z0-9]+)";
pub const ARM_RE_STR: &'static str = r"(?i)^\s*str\s+([a-z0-9]+)";
pub const ARM_RE_LDR: &'static str = r"(?i)^\s*ldr\s+([a-z0-9]+)";
pub const ARM_RE_BL: &'static str = r"(?i)^\s*bl\s+";
pub const ARM_RE_DIV: &'static str = r"(?i)^\s*(sdiv|udiv)\s+([a-z0-9]+),\s*([a-z0-9]+),\s*([a-z0-9]+)";
pub const ARM_RE_ZERO_CHECK: &'static str = r"(?i)^\s*(cbz|cbnz|cmp)\b.*#0";
pub const ARM_RE_DST_REG: &'static str = r"(?i)^\s*(mov|add|sub|eor|and|orr|lsl|lsr|asr|mul|smull|msub)\s+([a-z0-9]+)\b";

pub const ARM_MSG_FRAME: &'static str = "Non-leaf ARM64 function calls 'bl' without saving FP (x29) and LR (x30).";
pub const ARM_EXPL_FRAME: &'static str = "Branch with Link ('bl') overwrites the Link Register (x30). Without saving x29 and x30, returning via 'ret' crashes or returns to wrong location.";
pub const ARM_FIX_FRAME: &'static str = "Add 'stp x29, x30, [sp, #-16]!' in prologue and 'ldp x29, x30, [sp], #16' before ret.";
pub const ARM_MSG_DIV: &'static str = "ARM64 'sdiv'/'udiv' without divisor zero-check. Division by zero silently yields 0 without trapping.";
pub const ARM_EXPL_DIV: &'static str = "Unlike x86 which triggers a hardware exception, ARM64 hardware division returns 0 when dividing by zero. This causes silent logic errors.";
pub const ARM_FIX_DIV: &'static str = "Check divisor before division using 'cbz x_denom, .div_by_zero_handler'.";
pub const ARM_EXPL_CLOBBER: &'static str = "AAPCS64 requires x19-x28 and d8-d15 to be preserved across calls.";

/// The 64-bit name of a register: `wN` becomes `xN`, `sN` becomes `dN`.
pub open spec fn canonical_arm_reg(r: Seq<char>) -> Seq<char> {
    let lower = unicode_lowercase(r);
    if starts_with(lower, "w"@) {
        "x"@ + lower.skip(1)
    } else if starts_with(lower, "s"@) {
        "d"@ + lower.skip(1)
    } else {
        lower
    }
}

pub fn canonical_arm_reg_exec(r: &Vec<char>) -> (res: Vec<char>)
    ensures
        res@ == canonical_arm_reg(r@),
{
    let lower = to_lowercase(r);
    proof {
        reveal_strlit("w");
        reveal_strlit("s");
    }
    if starts_with_exec(&lower, &chars_of("w")) {
        let mut x = chars_of("x");
        append(&mut x, &crate::text::slice_chars(&lower, 1, lower.len()));
        proof {
            assert(x@ =~= "x"@ + lower@.skip(1));
        }
        x
    } else if starts_with_exec(&lower, &chars_of("s")) {
        let mut d = chars_of("d");
        append(&mut d, &crate::text::slice_chars(&lower, 1, lower.len()));
        proof {
            assert(d@ =~= "d"@ + lower@.skip(1));
        }
        d
    } else {
        lower
    }
}

/// The comment-free text of an AArch64 source line.
pub open spec fn arm_clean(line: Seq<char>) -> Seq<char> {
    cut_at_char(cut_at_seq(trim(line), "//"@), ';')
}

/// Whether a cleaned AArch64 line carries no instruction.
pub open spec fn arm_skipped(t: Seq<char>) -> bool {
    t.len() == 0 || ends_with(t, ":"@)
}

/// What the line recognisers report for one cleaned line.
pub struct ArmFacts {
    pub stp: Option<Seq<Seq<char>>>,
    pub ldp: Option<Seq<Seq<char>>>,
    pub str: Option<Seq<Seq<char>>>,
    pub ldr: Option<Seq<Seq<char>>>,
    pub dst_reg: Option<Seq<Seq<char>>>,
    pub zero_check: bool,
    pub div: bool,
    pub bl: bool,
}

pub open spec fn arm_facts(t: Seq<char>) -> ArmFacts {
    ArmFacts {
        stp: regex_captures(ARM_RE_STP@, t),
        ldp: regex_captures(ARM_RE_LDP@, t),
        str: regex_captures(ARM_RE_STR@, t),
        ldr: regex_captures(ARM_RE_LDR@, t),
        dst_reg: regex_captures(ARM_RE_DST_REG@, t),
        zero_check: is_match(ARM_RE_ZERO_CHECK@, t),
        div: is_match(ARM_RE_DIV@, t),
        bl: is_match(ARM_RE_BL@, t),
    }
}

/// The recognisers' report, as computed.
pub struct ArmLineFacts {
    pub stp: Option<Vec<Vec<char>>>,
    pub ldp: Option<Vec<Vec<char>>>,
    pub str: Option<Vec<Vec<char>>>,
    pub ldr: Option<Vec<Vec<char>>>,
    pub dst_reg: Option<Vec<Vec<char>>>,
    pub zero_check: bool,
    pub div: bool,
    pub bl: bool,
}

impl View for ArmLineFacts {
    type V = ArmFacts;

    open spec fn view(&self) -> ArmFacts {
        ArmFacts {
            stp: self.stp.deep_view(),
            ldp: self.ldp.deep_view(),
            str: self.str.deep_view(),
            ldr: self.ldr.deep_view(),
            dst_reg: self.dst_reg.deep_view(),
            zero_check: self.zero_check,
            div: self.div,
            bl: self.bl,
        }
    }
}

pub fn arm_line_facts(t: &Vec<char>) -> (f: ArmLineFacts)
    ensures
        f@ == arm_facts(t@),
{
    ArmLineFacts {
        stp: captures(ARM_RE_STP, t),
        ldp: captures(ARM_RE_LDP, t),
        str: captures(ARM_RE_STR, t),
        ldr: captures(ARM_RE_LDR, t),
        dst_reg: captures(ARM_RE_DST_REG, t),
        zero_check: is_match_exec(ARM_RE_ZERO_CHECK, t),
        div: is_match_exec(ARM_RE_DIV, t),
        bl: is_match_exec(ARM_RE_BL, t),
    }
}

/// What the AArch64 linter has gathered after some lines.
pub struct ArmState {
    pub frame_saved: bool,
    pub branch_link: bool,
    pub branch_link_line: int,
    pub had_div: bool,
    pub zero_guard: bool,
    pub div_line: int,
    pub saved: Seq<Seq<char>>,
    pub restored: Seq<Seq<char>>,
    pub modified: Seq<Seq<char>>,
}

pub struct ArmScan {
    pub frame_saved: bool,
    pub branch_link: bool,
    pub branch_link_line: usize,
    pub had_div: bool,
    pub zero_guard: bool,
    pub div_line: usize,
    pub saved: Vec<Vec<char>>,
    pub restored: Vec<Vec<char>>,
    pub modified: Vec<Vec<char>>,
}

impl View for ArmScan {
    type V = ArmState;

    open spec fn view(&self) -> ArmState {
        ArmState {
            frame_saved: self.frame_saved,
            branch_link: self.branch_link,
            branch_link_line: self.branch_link_line as int,
            had_div: self.had_div,
            zero_guard: self.zero_guard,
            div_line: self.div_line as int,
            saved: self.saved.deep_view(),
            restored: self.restored.deep_view(),
            modified: self.modified.deep_view(),
        }
    }
}

pub open spec fn arm_initial() -> ArmState {
    ArmState {
        frame_saved: false,
        branch_link: false,
        branch_link_line: 0,
        had_div: false,
        zero_guard: false,
        div_line: 0,
        saved: Seq::empty(),
        restored: Seq::empty(),
        modified: Seq::empty(),
    }
}

/// Register pairs and single registers stored or loaded.
pub open spec fn arm_saves(s: ArmState, f: ArmFacts) -> ArmState {
    let s1 = match f.stp {
        Some(c) => {
            let r1 = canonical_arm_reg(group(c, 1));
            let r2 = canonical_arm_reg(group(c, 2));
            ArmState {
                saved: s.saved.push(r1).push(r2),
                frame_saved: s.frame_saved || (r1 == "x29"@ && r2 == "x30"@) || (r1 == "x30"@ && r2 == "x29"@),
                ..s
            }
        },
        None => s,
    };
    let s2 = match f.ldp {
        Some(c) => ArmState {
            restored: s1.restored.push(canonical_arm_reg(group(c, 1))).push(canonical_arm_reg(group(c, 2))),
            ..s1
        },
        None => s1,
    };
    let s3 = match f.str {
        Some(c) => ArmState { saved: s2.saved.push(canonical_arm_reg(group(c, 1))), ..s2 },
        None => s2,
    };
    match f.ldr {
        Some(c) => ArmState { restored: s3.restored.push(canonical_arm_reg(group(c, 1))), ..s3 },
        None => s3,
    }
}

/// Written registers, zero checks, divisions and calls.
pub open spec fn arm_uses(s: ArmState, ln: int, f: ArmFacts) -> ArmState {
    let s1 = match f.dst_reg {
        Some(c) => ArmState { modified: s.modified.push(canonical_arm_reg(group(c, 2))), ..s },
        None => s,
    };
    let s2 = if f.zero_check { ArmState { zero_guard: true, ..s1 } } else { s1 };
    let s3 = if f.div { ArmState { had_div: true, div_line: ln, ..s2 } } else { s2 };
    if f.bl {
        ArmState { branch_link: true, branch_link_line: ln, ..s3 }
    } else {
        s3
    }
}

/// The state after the first `k` lines.
pub open spec fn arm_scan(ls: Seq<Seq<char>>, k: int) -> ArmState
    decreases k,
{
    if k <= 0 || k > ls.len() {
        arm_initial()
    } else {
        let s = arm_scan(ls, k - 1);
        let t = arm_clean(ls[k - 1]);
        if arm_skipped(t) {
            s
        } else {
            arm_uses(arm_saves(s, arm_facts(t)), k, arm_facts(t))
        }
    }
}

/// The registers AAPCS64 asks a callee to preserve.
pub open spec fn arm_callee_saved() -> Seq<Seq<char>> {
    seq![
        "x19"@, "x20"@, "x21"@, "x22"@, "x23"@, "x24"@, "x25"@, "x26"@, "x27"@, "x28"@,
        "d8"@, "d9"@, "d10"@, "d11"@, "d12"@, "d13"@, "d14"@, "d15"@,
    ]
}

pub open spec fn arm_clobber_diag(ln: int, reg: Seq<char>, saved: bool, restored: bool) -> Diag {
    diag(
        "CALLEE_SAVED_REGISTER_CLOBBERED"@,
        Severity::Error,
        ln,
        "ARM64 callee-saved register '"@ + reg + "' was modified but not preserved (saved="@
            + bool_text(saved) + ", restored="@ + bool_text(restored) + ")."@,
        ARM_EXPL_CLOBBER@,
        "Save '"@ + reg + "' in function prologue using 'stp' and restore with 'ldp' before return."@,
    )
}

/// Diagnostics for the registers of `regs` written without being both saved
/// and restored.
pub open spec fn arm_clobber_diags(s: ArmState, regs: Seq<Seq<char>>, ln: int) -> Seq<Diag>
    decreases regs.len(),
{
    if regs.len() == 0 {
        Seq::empty()
    } else {
        let rest = arm_clobber_diags(s, regs.drop_last(), ln);
        let r = regs.last();
        let saved = s.saved.contains(r);
        let restored = s.restored.contains(r);
        if s.modified.contains(r) && (!saved || !restored) {
            rest.push(arm_clobber_diag(ln, r, saved, restored))
        } else {
            rest
        }
    }
}

/// What the AArch64 linter reports for a source text.
pub open spec fn arm_lint(code: Seq<char>) -> Seq<Diag> {
    let ls = lines(code);
    let s = arm_scan(ls, ls.len() as int);
    let d1 = if s.branch_link && !s.frame_saved {
        seq![diag("ARM64_MISSING_FRAME_PAIR"@, Severity::Error, s.branch_link_line, ARM_MSG_FRAME@, ARM_EXPL_FRAME@, ARM_FIX_FRAME@)]
    } else {
        Seq::empty()
    };
    let d2 = if s.had_div && !s.zero_guard {
        seq![diag("ARM64_SILENT_DIVISION_BY_ZERO"@, Severity::Warning, s.div_line, ARM_MSG_DIV@, ARM_EXPL_DIV@, ARM_FIX_DIV@)]
    } else {
        Seq::empty()
    };
    d1 + d2 + arm_clobber_diags(s, arm_callee_saved(), ls.len() as int)
}

fn arm_exec_saves(st: &mut ArmScan, f: &ArmLineFacts)
    ensures
        final(st)@ == arm_saves(old(st)@, f@),
{
    match &f.stp {
        Some(c) => {
            let r1 = canonical_arm_reg_exec(&group_of(c, 1));
            let r2 = canonical_arm_reg_exec(&group_of(c, 2));
            let frame = (crate::text::eq_str(&r1, "x29") && crate::text::eq_str(&r2, "x30"))
                || (crate::text::eq_str(&r1, "x30") && crate::text::eq_str(&r2, "x29"));
            push_text(&mut st.saved, r1);
            push_text(&mut st.saved, r2);
            if frame {
                st.frame_saved = true;
            }
        },
        None => {},
    }
    match &f.ldp {
        Some(c) => {
            push_text(&mut st.restored, canonical_arm_reg_exec(&group_of(c, 1)));
            push_text(&mut st.restored, canonical_arm_reg_exec(&group_of(c, 2)));
        },
        None => {},
    }
    match &f.str {
        Some(c) => push_text(&mut st.saved, canonical_arm_reg_exec(&group_of(c, 1))),
        None => {},
    }
    match &f.ldr {
        Some(c) => push_text(&mut st.restored, canonical_arm_reg_exec(&group_of(c, 1))),
        None => {},
    }
}

fn arm_exec_uses(st: &mut ArmScan, ln: usize, f: &ArmLineFacts)
    ensures
        final(st)@ == arm_uses(old(st)@, ln as int, f@),
{
    match &f.dst_reg {
        Some(c) => push_text(&mut st.modified, canonical_arm_reg_exec(&group_of(c, 2))),
        None => {},
    }
    if f.zero_check {
        st.zero_guard = true;
    }
    if f.div {
        st.had_div = true;
        st.div_line = ln;
    }
    if f.bl {
        st.branch_link = true;
        st.branch_link_line = ln;
    }
}

/// Line `i` (from 0) of `ls`: the scan state after it.
pub fn arm_lint_line(st: &mut ArmScan, ls: &Vec<Vec<char>>, i: usize)
    requires
        i < ls.len(),
        old(st)@ == arm_scan(ls.deep_view(), i as int),
    ensures
        final(st)@ == arm_scan(ls.deep_view(), i + 1),
{
    let t = cut_at_char_exec(cut_at_str_exec(trim_chars(&ls[i]), "//"), ';');
    proof {
        assert(ls.deep_view()[i as int] == ls[i as int]@);
    }
    if !(t.len() == 0 || ends_with_exec(&t, &chars_of(":"))) {
        let f = arm_line_facts(&t);
        arm_exec_saves(st, &f);
        arm_exec_uses(st, i + 1, &f);
    }
}

fn arm_clobber_diag_exec(ln: usize, reg: &Vec<char>, saved: bool, restored: bool) -> (d: LintDiagnostic)
    ensures
        d@ == arm_clobber_diag(ln as int, reg@, saved, restored),
{
    let mut m = chars_of("ARM64 callee-saved register '");
    append(&mut m, reg);
    append_str(&mut m, "' was modified but not preserved (saved=");
    append(&mut m, &bool_text_exec(saved));
    append_str(&mut m, ", restored=");
    append(&mut m, &bool_text_exec(restored));
    append_str(&mut m, ").");
    let mut fx = chars_of("Save '");
    append(&mut fx, reg);
    append_str(&mut fx, "' in function prologue using 'stp' and restore with 'ldp' before return.");
    make_diag("CALLEE_SAVED_REGISTER_CLOBBERED", Severity::Error, ln, &m, &chars_of(ARM_EXPL_CLOBBER), &fx)
}

fn arm_callee_saved_exec() -> (v: Vec<Vec<char>>)
    ensures
        v.deep_view() == arm_callee_saved(),
{
    let mut v: Vec<Vec<char>> = Vec::new();
    push_text(&mut v, chars_of("x19"));
    push_text(&mut v, chars_of("x20"));
    push_text(&mut v, chars_of("x21"));
    push_text(&mut v, chars_of("x22"));
    push_text(&mut v, chars_of("x23"));
    push_text(&mut v, chars_of("x24"));
    push_text(&mut v, chars_of("x25"));
    push_text(&mut v, chars_of("x26"));
    push_text(&mut v, chars_of("x27"));
    push_text(&mut v, chars_of("x28"));
    push_text(&mut v, chars_of("d8"));
    push_text(&mut v, chars_of("d9"));
    push_text(&mut v, chars_of("d10"));
    push_text(&mut v, chars_of("d11"));
    push_text(&mut v, chars_of("d12"));
    push_text(&mut v, chars_of("d13"));
    push_text(&mut v, chars_of("d14"));
    push_text(&mut v, chars_of("d15"));
    proof {
        assert(v.deep_view() =~= arm_callee_saved());
    }
    v
}

fn arm_exec_clobbers(out: &mut Vec<LintDiagnostic>, st: &ArmScan, ln: usize)
    ensures
        diags_view(final(out)@) == diags_view(old(out)@) + arm_clobber_diags(st@, arm_callee_saved(), ln as int),
{
    let regs = arm_callee_saved_exec();
    let ghost base = diags_view(out@);
    let mut i: usize = 0;
    while i < regs.len()
        invariant
            i <= regs.len(),
            regs.deep_view() == arm_callee_saved(),
            diags_view(out@) == base + arm_clobber_diags(st@, regs.deep_view().take(i as int), ln as int),
        decreases regs.len() - i,
    {
        let r = &regs[i];
        let saved = contains_text(&st.saved, r);
        let restored = contains_text(&st.restored, r);
        proof {
            let t = regs.deep_view().take(i + 1);
            assert(t.drop_last() =~= regs.deep_view().take(i as int));
            assert(t.last() == regs[i as int]@);
        }
        if contains_text(&st.modified, r) && (!saved || !restored) {
            let d = arm_clobber_diag_exec(ln, r, saved, restored);
            push_diag(out, d);
        }
        i = i + 1;
    }
    proof {
        assert(regs.deep_view().take(regs.len() as int) =~= regs.deep_view());
    }
}

/// Static ABI checks for AArch64 assembly.
pub struct Arm64Linter {
    abi: CallingConvention,
}

impl Arm64Linter {
    /// The convention the linter was made for; the checks do not depend on it.
    pub closed spec fn convention(&self) -> CallingConvention {
        self.abi
    }

    pub fn new(abi: CallingConvention) -> (l: Self)
        ensures
            l.convention() == abi,
    {
        Arm64Linter { abi }
    }

    /// Lints a source text. Lines are numbered from 1; the end-of-function
    /// findings carry the number of lines.
    #[verifier::spinoff_prover]
    pub fn lint(&self, assembly_code: &str) -> (res: Vec<LintDiagnostic>)
        ensures
            diags_view(res@) == arm_lint(assembly_code@),
    {
        let code = chars_of(assembly_code);
        let ls = split_lines(&code);
        let mut st = ArmScan {
            frame_saved: false,
            branch_link: false,
            branch_link_line: 0,
            had_div: false,
            zero_guard: false,
            div_line: 0,
            saved: Vec::new(),
            restored: Vec::new(),
            modified: Vec::new(),
        };
        proof {
            assert(st@.saved =~= Seq::<Seq<char>>::empty());
            assert(st@.restored =~= Seq::<Seq<char>>::empty());
            assert(st@.modified =~= Seq::<Seq<char>>::empty());
        }
        let mut i: usize = 0;
        while i < ls.len()
            invariant
                i <= ls.len(),
                ls.deep_view() == lines(code@),
                st@ == arm_scan(ls.deep_view(), i as int),
            decreases ls.len() - i,
        {
            arm_lint_line(&mut st, &ls, i);
            i = i + 1;
        }
        let mut out: Vec<LintDiagnostic> = Vec::new();
        if st.branch_link && !st.frame_saved {
            let d = make_diag(
                "ARM64_MISSING_FRAME_PAIR",
                Severity::Error,
                st.branch_link_line,
                &chars_of(ARM_MSG_FRAME),
                &chars_of(ARM_EXPL_FRAME),
                &chars_of(ARM_FIX_FRAME),
            );
            push_diag(&mut out, d);
        }
        if st.had_div && !st.zero_guard {
            let d = make_diag(
                "ARM64_SILENT_DIVISION_BY_ZERO",
                Severity::Warning,
                st.div_line,
                &chars_of(ARM_MSG_DIV),
                &chars_of(ARM_EXPL_DIV),
                &chars_of(ARM_FIX_DIV),
            );
            push_diag(&mut out, d);
        }
        let ghost mid = diags_view(out@);
        arm_exec_clobbers(&mut out, &st, ls.len());
        proof {
            let s = st@;
            let d1 = if s.branch_link && !s.frame_saved {
                seq![diag("ARM64_MISSING_FRAME_PAIR"@, Severity::Error, s.branch_link_line, ARM_MSG_FRAME@, ARM_EXPL_FRAME@, ARM_FIX_FRAME@)]
            } else {
                Seq::<Diag>::empty()
            };
            let d2 = if s.had_div && !s.zero_guard {
                seq![diag("ARM64_SILENT_DIVISION_BY_ZERO"@, Severity::Warning, s.div_line, ARM_MSG_DIV@, ARM_EXPL_DIV@, ARM_FIX_DIV@)]
            } else {
                Seq::<Diag>::empty()
            };
            assert(mid =~= d1 + d2);
        }
        out
    }
}

} // verus!
