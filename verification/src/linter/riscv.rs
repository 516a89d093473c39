//! Static ABI linter for RISC-V assembly (LP64).
use vstd::prelude::*;
use crate::linter::common::{bool_text, bool_text_exec, cut_at_char, cut_at_char_exec, cut_at_seq, cut_at_str_exec, diag};
use crate::pattern::{captures, group, group_of, is_match, is_match_exec, regex_captures};
use crate::text::{
    append, append_str, chars_of, contains_text, ends_with, ends_with_exec, eq_str, lines, push_text,
    split_lines, to_lowercase, trim, trim_chars, unicode_lowercase,
};
use crate::types::{make_diag, push_diag, CallingConvention, Diag, LintDiagnostic, Severity, diags_view};

verus! {

pub const RV_RE_SD_SW: &'static str = r"(?i)^\s*(sd|sw|fsd|fsw)\s+([a-z0-9]+),\s*(-?\d+)\(sp\)";
pub const RV_RE_LD_LW: &'static str = r"(?i)^\s*(ld|lw|fld|flw)\s+([a-z0-9]+),\s*(-?\d+)\(sp\)";
pub const RV_RE_CALL: &'static str = r"(?i)^\s*(call|jal|jalr)\b";
pub const RV_RE_DIV: &'static str = r"(?i)^\s*(div[uw]?|rem[uw]?)\s+([a-z0-9]+),\s*([a-z0-9]+),\s*([a-z0-9]+)";
pub const RV_RE_ZERO_CHECK: &'static str = r"(?i)^\s*(beqz|bnez)\b";
pub const RV_RE_DST_REG: &'static str = r"(?i)^\s*(mv|li|add[iw]?|sub[iw]?|mul[iw]?|div[iw]?|rem[iw]?|xor|and|or|sll[iw]?|srl[iw]?|sra[iw]?)\s+([a-z0-9]+)\b";

pub const RV_MSG_RA: &'static str = "Non-leaf RISC-V function calls external function without saving return address 'ra' (x1).";
pub const RV_EXPL_RA: &'static str = "'call' / 'jal' overwrites the 'ra' register with the return address. Without saving 'ra' on the stack, 'ret' (jalr x0, x1, 0) cannot return to caller.";
pub const RV_FIX_RA: &'static str = "Save 'ra' in prologue with 'sd ra, 8(sp)' and restore with 'ld ra, 8(sp)' before ret.";
pub const RV_MSG_DIV: &'static str = "RISC-V 'div'/'rem' without zero-check. Division by zero does NOT trap in RISC-V: 'div' returns -1 and 'rem' returns dividend.";
pub const RV_EXPL_DIV: &'static str = "RISC-V architecture intentionally avoids hardware divide-by-zero exceptions. Unchecked division by zero silently returns all 1s (-1), causing subtle arithmetic bugs.";
pub const RV_FIX_DIV: &'static str = "Check divisor with 'beqz reg, .zero_handler' before division.";
pub const RV_EXPL_CLOBBER: &'static str = "RISC-V ABI requires s0-s11 and fs0-fs11 to be preserved across calls.";

/// The ABI name of a register given by its `xN` number where that has one.
pub open spec fn canonical_riscv_reg(r: Seq<char>) -> Seq<char> {
    let l = unicode_lowercase(r);
    if l == "x1"@ { "ra"@ }
    else if l == "x2"@ { "sp"@ }
    else if l == "x8"@ { "s0"@ }
    else if l == "x9"@ { "s1"@ }
    else if l == "x18"@ { "s2"@ }
    else if l == "x19"@ { "s3"@ }
    else if l == "x20"@ { "s4"@ }
    else if l == "x21"@ { "s5"@ }
    else if l == "x22"@ { "s6"@ }
    else if l == "x23"@ { "s7"@ }
    else if l == "x24"@ { "s8"@ }
    else if l == "x25"@ { "s9"@ }
    else if l == "x26"@ { "s10"@ }
    else if l == "x27"@ { "s11"@ }
    else { l }
}

pub fn canonical_riscv_reg_exec(r: &Vec<char>) -> (res: Vec<char>)
    ensures
        res@ == canonical_riscv_reg(r@),
{
    let l = to_lowercase(r);
    if eq_str(&l, "x1") { chars_of("ra") }
    else if eq_str(&l, "x2") { chars_of("sp") }
    else if eq_str(&l, "x8") { chars_of("s0") }
    else if eq_str(&l, "x9") { chars_of("s1") }
    else if eq_str(&l, "x18") { chars_of("s2") }
    else if eq_str(&l, "x19") { chars_of("s3") }
    else if eq_str(&l, "x20") { chars_of("s4") }
    else if eq_str(&l, "x21") { chars_of("s5") }
    else if eq_str(&l, "x22") { chars_of("s6") }
    else if eq_str(&l, "x23") { chars_of("s7") }
    else if eq_str(&l, "x24") { chars_of("s8") }
    else if eq_str(&l, "x25") { chars_of("s9") }
    else if eq_str(&l, "x26") { chars_of("s10") }
    else if eq_str(&l, "x27") { chars_of("s11") }
    else { l }
}

/// The comment-free text of a RISC-V source line.
pub open spec fn riscv_clean(line: Seq<char>) -> Seq<char> {
    cut_at_seq(cut_at_char(trim(line), '#'), "//"@)
}

/// Whether a cleaned RISC-V line carries no instruction.
pub open spec fn riscv_skipped(t: Seq<char>) -> bool {
    t.len() == 0 || ends_with(t, ":"@)
}

/// What the line recognisers report for one cleaned line.
pub struct RiscvFacts {
    pub store: Option<Seq<Seq<char>>>,
    pub load: Option<Seq<Seq<char>>>,
    pub dst_reg: Option<Seq<Seq<char>>>,
    pub zero_check: bool,
    pub div: bool,
    pub call: bool,
}

pub open spec fn riscv_facts(t: Seq<char>) -> RiscvFacts {
    RiscvFacts {
        store: regex_captures(RV_RE_SD_SW@, t),
        load: regex_captures(RV_RE_LD_LW@, t),
        dst_reg: regex_captures(RV_RE_DST_REG@, t),
        zero_check: is_match(RV_RE_ZERO_CHECK@, t),
        div: is_match(RV_RE_DIV@, t),
        call: is_match(RV_RE_CALL@, t),
    }
}

/// The recognisers' report, as computed.
pub struct RiscvLineFacts {
    pub store: Option<Vec<Vec<char>>>,
    pub load: Option<Vec<Vec<char>>>,
    pub dst_reg: Option<Vec<Vec<char>>>,
    pub zero_check: bool,
    pub div: bool,
    pub call: bool,
}

impl View for RiscvLineFacts {
    type V = RiscvFacts;

    open spec fn view(&self) -> RiscvFacts {
        RiscvFacts {
            store: self.store.deep_view(),
            load: self.load.deep_view(),
            dst_reg: self.dst_reg.deep_view(),
            zero_check: self.zero_check,
            div: self.div,
            call: self.call,
        }
    }
}

pub fn riscv_line_facts(t: &Vec<char>) -> (f: RiscvLineFacts)
    ensures
        f@ == riscv_facts(t@),
{
    RiscvLineFacts {
        store: captures(RV_RE_SD_SW, t),
        load: captures(RV_RE_LD_LW, t),
        dst_reg: captures(RV_RE_DST_REG, t),
        zero_check: is_match_exec(RV_RE_ZERO_CHECK, t),
        div: is_match_exec(RV_RE_DIV, t),
        call: is_match_exec(RV_RE_CALL, t),
    }
}

/// What the RISC-V linter has gathered after some lines.
pub struct RiscvState {
    pub ra_saved: bool,
    pub has_call: bool,
    pub call_line: int,
    pub had_div: bool,
    pub zero_guard: bool,
    pub div_line: int,
    pub saved: Seq<Seq<char>>,
    pub restored: Seq<Seq<char>>,
    pub modified: Seq<Seq<char>>,
}

pub struct RiscvScan {
    pub ra_saved: bool,
    pub has_call: bool,
    pub call_line: usize,
    pub had_div: bool,
    pub zero_guard: bool,
    pub div_line: usize,
    pub saved: Vec<Vec<char>>,
    pub restored: Vec<Vec<char>>,
    pub modified: Vec<Vec<char>>,
}

impl View for RiscvScan {
    type V = RiscvState;

    open spec fn view(&self) -> RiscvState {
        RiscvState {
            ra_saved: self.ra_saved,
            has_call: self.has_call,
            call_line: self.call_line as int,
            had_div: self.had_div,
            zero_guard: self.zero_guard,
            div_line: self.div_line as int,
            saved: self.saved.deep_view(),
            restored: self.restored.deep_view(),
            modified: self.modified.deep_view(),
        }
    }
}

pub open spec fn riscv_initial() -> RiscvState {
    RiscvState {
        ra_saved: false,
        has_call: false,
        call_line: 0,
        had_div: false,
        zero_guard: false,
        div_line: 0,
        saved: Seq::empty(),
        restored: Seq::empty(),
        modified: Seq::empty(),
    }
}

/// One cleaned, non-empty line `ln`.
pub open spec fn riscv_step(s: RiscvState, ln: int, f: RiscvFacts) -> RiscvState {
    let s1 = match f.store {
        Some(c) => {
            let r = canonical_riscv_reg(group(c, 2));
            RiscvState {
                saved: s.saved.push(r),
                ra_saved: s.ra_saved || r == "ra"@ || r == "x1"@,
                ..s
            }
        },
        None => s,
    };
    let s2 = match f.load {
        Some(c) => RiscvState { restored: s1.restored.push(canonical_riscv_reg(group(c, 2))), ..s1 },
        None => s1,
    };
    let s3 = match f.dst_reg {
        Some(c) => RiscvState { modified: s2.modified.push(canonical_riscv_reg(group(c, 2))), ..s2 },
        None => s2,
    };
    let s4 = if f.zero_check { RiscvState { zero_guard: true, ..s3 } } else { s3 };
    let s5 = if f.div { RiscvState { had_div: true, div_line: ln, ..s4 } } else { s4 };
    if f.call {
        RiscvState { has_call: true, call_line: ln, ..s5 }
    } else {
        s5
    }
}

/// The state after the first `k` lines.
pub open spec fn riscv_scan(ls: Seq<Seq<char>>, k: int) -> RiscvState
    decreases k,
{
    if k <= 0 || k > ls.len() {
        riscv_initial()
    } else {
        let s = riscv_scan(ls, k - 1);
        let t = riscv_clean(ls[k - 1]);
        if riscv_skipped(t) {
            s
        } else {
            riscv_step(s, k, riscv_facts(t))
        }
    }
}

/// The registers the RISC-V calling convention asks a callee to preserve.
pub open spec fn riscv_callee_saved() -> Seq<Seq<char>> {
    seq![
        "s0"@, "s1"@, "s2"@, "s3"@, "s4"@, "s5"@, "s6"@, "s7"@, "s8"@, "s9"@, "s10"@, "s11"@,
        "fs0"@, "fs1"@, "fs2"@, "fs3"@, "fs4"@, "fs5"@, "fs6"@, "fs7"@, "fs8"@, "fs9"@, "fs10"@, "fs11"@,
    ]
}

pub open spec fn riscv_clobber_diag(ln: int, reg: Seq<char>, saved: bool, restored: bool) -> Diag {
    diag(
        "CALLEE_SAVED_REGISTER_CLOBBERED"@,
        Severity::Error,
        ln,
        "RISC-V callee-saved register '"@ + reg + "' was modified but not preserved (saved="@
            + bool_text(saved) + ", restored="@ + bool_text(restored) + ")."@,
        RV_EXPL_CLOBBER@,
        "Save '"@ + reg + "' to stack in prologue with 'sd "@ + reg + ", offset(sp)' and restore before ret."@,
    )
}

/// Diagnostics for the registers of `regs` written without being both saved
/// and restored.
pub open spec fn riscv_clobber_diags(s: RiscvState, regs: Seq<Seq<char>>, ln: int) -> Seq<Diag>
    decreases regs.len(),
{
    if regs.len() == 0 {
        Seq::empty()
    } else {
        let rest = riscv_clobber_diags(s, regs.drop_last(), ln);
        let r = regs.last();
        let saved = s.saved.contains(r);
        let restored = s.restored.contains(r);
        if s.modified.contains(r) && (!saved || !restored) {
            rest.push(riscv_clobber_diag(ln, r, saved, restored))
        } else {
            rest
        }
    }
}

/// What the RISC-V linter reports for a source text.
pub open spec fn riscv_lint(code: Seq<char>) -> Seq<Diag> {
    let ls = lines(code);
    let s = riscv_scan(ls, ls.len() as int);
    let d1 = if s.has_call && !s.ra_saved {
        seq![diag("RISCV_MISSING_RA_SAVE"@, Severity::Error, s.call_line, RV_MSG_RA@, RV_EXPL_RA@, RV_FIX_RA@)]
    } else {
        Seq::empty()
    };
    let d2 = if s.had_div && !s.zero_guard {
        seq![diag("RISCV_SILENT_DIVISION_BY_ZERO"@, Severity::Warning, s.div_line, RV_MSG_DIV@, RV_EXPL_DIV@, RV_FIX_DIV@)]
    } else {
        Seq::empty()
    };
    d1 + d2 + riscv_clobber_diags(s, riscv_callee_saved(), ls.len() as int)
}

fn riscv_exec_step(st: &mut RiscvScan, ln: usize, f: &RiscvLineFacts)
    ensures
        final(st)@ == riscv_step(old(st)@, ln as int, f@),
{
    match &f.store {
        Some(c) => {
            let r = canonical_riscv_reg_exec(&group_of(c, 2));
            let ra = eq_str(&r, "ra") || eq_str(&r, "x1");
            push_text(&mut st.saved, r);
            if ra {
                st.ra_saved = true;
            }
        },
        None => {},
    }
    match &f.load {
        Some(c) => push_text(&mut st.restored, canonical_riscv_reg_exec(&group_of(c, 2))),
        None => {},
    }
    match &f.dst_reg {
        Some(c) => push_text(&mut st.modified, canonical_riscv_reg_exec(&group_of(c, 2))),
        None => {},
    }
    if f.zero_check {
        st.zero_guard = true;
    }
    if f.div {
        st.had_div = true;
        st.div_line = ln;
    }
    if f.call {
        st.has_call = true;
        st.call_line = ln;
    }
}

/// Line `i` (from 0) of `ls`: the scan state after it.
pub fn riscv_lint_line(st: &mut RiscvScan, ls: &Vec<Vec<char>>, i: usize)
    requires
        i < ls.len(),
        old(st)@ == riscv_scan(ls.deep_view(), i as int),
    ensures
        final(st)@ == riscv_scan(ls.deep_view(), i + 1),
{
    let t = cut_at_str_exec(cut_at_char_exec(trim_chars(&ls[i]), '#'), "//");
    proof {
        assert(ls.deep_view()[i as int] == ls[i as int]@);
    }
    if !(t.len() == 0 || ends_with_exec(&t, &chars_of(":"))) {
        let f = riscv_line_facts(&t);
        riscv_exec_step(st, i + 1, &f);
    }
}

fn riscv_clobber_diag_exec(ln: usize, reg: &Vec<char>, saved: bool, restored: bool) -> (d: LintDiagnostic)
    ensures
        d@ == riscv_clobber_diag(ln as int, reg@, saved, restored),
{
    let mut m = chars_of("RISC-V callee-saved register '");
    append(&mut m, reg);
    append_str(&mut m, "' was modified but not preserved (saved=");
    append(&mut m, &bool_text_exec(saved));
    append_str(&mut m, ", restored=");
    append(&mut m, &bool_text_exec(restored));
    append_str(&mut m, ").");
    let mut fx = chars_of("Save '");
    append(&mut fx, reg);
    append_str(&mut fx, "' to stack in prologue with 'sd ");
    append(&mut fx, reg);
    append_str(&mut fx, ", offset(sp)' and restore before ret.");
    make_diag("CALLEE_SAVED_REGISTER_CLOBBERED", Severity::Error, ln, &m, &chars_of(RV_EXPL_CLOBBER), &fx)
}

fn riscv_callee_saved_exec() -> (v: Vec<Vec<char>>)
    ensures
        v.deep_view() == riscv_callee_saved(),
{
    let mut v: Vec<Vec<char>> = Vec::new();
    push_text(&mut v, chars_of("s0"));
    push_text(&mut v, chars_of("s1"));
    push_text(&mut v, chars_of("s2"));
    push_text(&mut v, chars_of("s3"));
    push_text(&mut v, chars_of("s4"));
    push_text(&mut v, chars_of("s5"));
    push_text(&mut v, chars_of("s6"));
    push_text(&mut v, chars_of("s7"));
    push_text(&mut v, chars_of("s8"));
    push_text(&mut v, chars_of("s9"));
    push_text(&mut v, chars_of("s10"));
    push_text(&mut v, chars_of("s11"));
    push_text(&mut v, chars_of("fs0"));
    push_text(&mut v, chars_of("fs1"));
    push_text(&mut v, chars_of("fs2"));
    push_text(&mut v, chars_of("fs3"));
    push_text(&mut v, chars_of("fs4"));
    push_text(&mut v, chars_of("fs5"));
    push_text(&mut v, chars_of("fs6"));
    push_text(&mut v, chars_of("fs7"));
    push_text(&mut v, chars_of("fs8"));
    push_text(&mut v, chars_of("fs9"));
    push_text(&mut v, chars_of("fs10"));
    push_text(&mut v, chars_of("fs11"));
    proof {
        assert(v.deep_view() =~= riscv_callee_saved());
    }
    v
}

fn riscv_exec_clobbers(out: &mut Vec<LintDiagnostic>, st: &RiscvScan, ln: usize)
    ensures
        diags_view(final(out)@) == diags_view(old(out)@) + riscv_clobber_diags(st@, riscv_callee_saved(), ln as int),
{
    let regs = riscv_callee_saved_exec();
    let ghost base = diags_view(out@);
    let mut i: usize = 0;
    while i < regs.len()
        invariant
            i <= regs.len(),
            regs.deep_view() == riscv_callee_saved(),
            diags_view(out@) == base + riscv_clobber_diags(st@, regs.deep_view().take(i as int), ln as int),
        decreases regs.len() - i,
    {
        let r = &regs[i];
        let saved = contains_text(&st.saved, r);
        let restored = contains_text(&st.restored, r);
        proof {
            let t = regs.deep_view().take(i + 1);
            assert(t.drop_last() =~= regs.deep_view().take(i as int));
            assert(t.last() == regs[i as int]@);
        }
        if contains_text(&st.modified, r) && (!saved || !restored) {
            let d = riscv_clobber_diag_exec(ln, r, saved, restored);
            push_diag(out, d);
        }
        i = i + 1;
    }
    proof {
        assert(regs.deep_view().take(regs.len() as int) =~= regs.deep_view());
    }
}

/// Static ABI checks for RISC-V assembly.
pub struct RiscvLinter {
    abi: CallingConvention,
}

impl RiscvLinter {
    /// The convention the linter was made for; the checks do not depend on it.
    pub closed spec fn convention(&self) -> CallingConvention {
        self.abi
    }

    pub fn new(abi: CallingConvention) -> (l: Self)
        ensures
            l.convention() == abi,
    {
        RiscvLinter { abi }
    }

    /// Lints a source text. Lines are numbered from 1; the end-of-function
    /// findings carry the number of lines.
    #[verifier::spinoff_prover]
    pub fn lint(&self, assembly_code: &str) -> (res: Vec<LintDiagnostic>)
        ensures
            diags_view(res@) == riscv_lint(assembly_code@),
    {
        let code = chars_of(assembly_code);
        let ls = split_lines(&code);
        let mut st = RiscvScan {
            ra_saved: false,
            has_call: false,
            call_line: 0,
            had_div: false,
            zero_guard: false,
            div_line: 0,
            saved: Vec::new(),
            restored: Vec::new(),
            modified: Vec::new(),
        };
        proof {
            assert(st@.saved =~= Seq::<Seq<char>>::empty());
            assert(st@.restored =~= Seq::<Seq<char>>::empty());
            assert(st@.modified =~= Seq::<Seq<char>>::empty());
        }
        let mut i: usize = 0;
        while i < ls.len()
            invariant
                i <= ls.len(),
                ls.deep_view() == lines(code@),
                st@ == riscv_scan(ls.deep_view(), i as int),
            decreases ls.len() - i,
        {
            riscv_lint_line(&mut st, &ls, i);
            i = i + 1;
        }
        let mut out: Vec<LintDiagnostic> = Vec::new();
        if st.has_call && !st.ra_saved {
            let d = make_diag(
                "RISCV_MISSING_RA_SAVE",
                Severity::Error,
                st.call_line,
                &chars_of(RV_MSG_RA),
                &chars_of(RV_EXPL_RA),
                &chars_of(RV_FIX_RA),
            );
            push_diag(&mut out, d);
        }
        if st.had_div && !st.zero_guard {
            let d = make_diag(
                "RISCV_SILENT_DIVISION_BY_ZERO",
                Severity::Warning,
                st.div_line,
                &chars_of(RV_MSG_DIV),
                &chars_of(RV_EXPL_DIV),
                &chars_of(RV_FIX_DIV),
            );
            push_diag(&mut out, d);
        }
        let ghost mid = diags_view(out@);
        riscv_exec_clobbers(&mut out, &st, ls.len());
        proof {
            let s = st@;
            let d1 = if s.has_call && !s.ra_saved {
                seq![diag("RISCV_MISSING_RA_SAVE"@, Severity::Error, s.call_line, RV_MSG_RA@, RV_EXPL_RA@, RV_FIX_RA@)]
            } else {
                Seq::<Diag>::empty()
            };
            let d2 = if s.had_div && !s.zero_guard {
                seq![diag("RISCV_SILENT_DIVISION_BY_ZERO"@, Severity::Warning, s.div_line, RV_MSG_DIV@, RV_EXPL_DIV@, RV_FIX_DIV@)]
            } else {
                Seq::<Diag>::empty()
            };
            assert(mid =~= d1 + d2);
        }
        out
    }
}

} // verus!
