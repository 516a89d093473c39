//! Automated repair of x86_64 assembly: callee-saved spills, stack alignment
//! and shadow space, zero idioms, 64-bit immediate stores and `vzeroupper`.
use vstd::prelude::*;
use crate::linter::x86_64::{canonical_reg, canonical_reg_exec, to_32bit_subreg, to_32bit_subreg_exec};
use crate::pattern::{captures, group, group_of, is_match, is_match_exec, regex_captures};
use crate::text::{
    append, append_str, chars_of, contains_text, decimal, ends_with, ends_with_exec, eq_chars, fmt_u64,
    join, join_exec, lines, push_text, split_lines, starts_with, starts_with_exec, string_from, string_of,
    to_lowercase, trim, trim_chars, unicode_lowercase,
};
use crate::types::CallingConvention;

verus! {

pub const FIX_RE_MOV_ZERO: &'static str = r"(?i)^(\s*)mov\s+(rax|rbx|rcx|rdx|rsi|rdi|r[8-9]|r1[0-5]),\s*0\b(.*)$";
pub const FIX_RE_MEM_IMM64: &'static str = r"(?i)^(\s*)mov\s+((?:qword\s*)?\[.+?\]),\s*(0x[0-9a-fA-F]{9,16})(.*)$";
pub const FIX_RE_CALL: &'static str = r"(?i)^\s*call\s+";
pub const FIX_RE_SUB_RSP: &'static str = r"(?i)^(\s*)sub\s+rsp,\s*(\d+|0x[0-9a-fA-F]+)(.*)$";
pub const FIX_RE_ADD_RSP: &'static str = r"(?i)^(\s*)add\s+rsp,\s*(\d+|0x[0-9a-fA-F]+)(.*)$";
pub const FIX_RE_PUSH: &'static str = r"(?i)^\s*push\s+([a-z0-9]+)";
pub const FIX_RE_POP: &'static str = r"(?i)^\s*pop\s+([a-z0-9]+)";
pub const FIX_RE_DST_REG: &'static str = r"(?i)^\s*(mov|add|sub|xor|and|or|imul|shl|shr|sar|lea)\s+([a-z0-9]+)\s*,";
pub const FIX_RE_RET: &'static str = r"(?i)^\s*ret\b";

pub const DESC_SPLIT_IMM64: &'static str = "Split invalid 64-bit immediate-to-memory write into temporary register intermediate.";
pub const DESC_VZEROUPPER: &'static str = "Automatically inserted 'vzeroupper' before ret to eliminate AVX-to-SSE transition penalties.";

/// One rewrite made by the fixer.
#[derive(Debug, Clone)]
pub struct AutoFixEdit {
    pub rule: String,
    pub description: String,
    pub original_line: String,
    pub fixed_line: String,
}

/// The mathematical content of an edit.
pub struct Edit {
    pub rule: Seq<char>,
    pub description: Seq<char>,
    pub original_line: Seq<char>,
    pub fixed_line: Seq<char>,
}

impl View for AutoFixEdit {
    type V = Edit;

    open spec fn view(&self) -> Edit {
        Edit {
            rule: self.rule@,
            description: self.description@,
            original_line: self.original_line@,
            fixed_line: self.fixed_line@,
        }
    }
}

pub open spec fn edits_view(v: Seq<AutoFixEdit>) -> Seq<Edit> {
    v.map_values(|e: AutoFixEdit| e@)
}

/// The outcome of a repair.
#[derive(Debug, Clone)]
pub struct AutoFixReport {
    pub original_code: String,
    pub fixed_code: String,
    pub changes_made: Vec<AutoFixEdit>,
    pub fixes_applied: usize,
}

/// The mathematical content of a repair report.
pub struct FixReport {
    pub original_code: Seq<char>,
    pub fixed_code: Seq<char>,
    pub changes_made: Seq<Edit>,
    pub fixes_applied: int,
}

impl View for AutoFixReport {
    type V = FixReport;

    open spec fn view(&self) -> FixReport {
        FixReport {
            original_code: self.original_code@,
            fixed_code: self.fixed_code@,
            changes_made: edits_view(self.changes_made@),
            fixes_applied: self.fixes_applied as int,
        }
    }
}

pub open spec fn edit(rule: Seq<char>, description: Seq<char>, original_line: Seq<char>, fixed_line: Seq<char>) -> Edit {
    Edit { rule, description, original_line, fixed_line }
}

fn make_edit(rule: &str, description: &Vec<char>, original_line: &Vec<char>, fixed_line: &Vec<char>) -> (e: AutoFixEdit)
    ensures
        e@ == edit(rule@, description@, original_line@, fixed_line@),
{
    AutoFixEdit {
        rule: string_from(rule),
        description: string_of(description),
        original_line: string_of(original_line),
        fixed_line: string_of(fixed_line),
    }
}

fn push_edit(v: &mut Vec<AutoFixEdit>, e: AutoFixEdit)
    ensures
        edits_view(final(v)@) == edits_view(old(v)@).push(e@),
{
    let ghost old_v = v@;
    v.push(e);
    proof {
        assert(edits_view(v@) =~= edits_view(old_v).push(e@));
    }
}

// ---------------------------------------------------------------------------
// First pass: what the function does.

/// `s` with `x` added unless it is already there (a set kept as a list).
pub open spec fn add_distinct(s: Seq<Seq<char>>, x: Seq<char>) -> Seq<Seq<char>> {
    if s.contains(x) {
        s
    } else {
        s.push(x)
    }
}

/// What the first pass gathers.
pub struct FixFacts {
    pub used_avx: bool,
    pub has_vzeroupper: bool,
    pub pushed: Seq<Seq<char>>,
    pub popped: Seq<Seq<char>>,
    pub modified: Seq<Seq<char>>,
    pub has_call: bool,
}

pub open spec fn fix_facts_initial() -> FixFacts {
    FixFacts {
        used_avx: false,
        has_vzeroupper: false,
        pushed: Seq::empty(),
        popped: Seq::empty(),
        modified: Seq::empty(),
        has_call: false,
    }
}

/// The first pass over one line.
pub open spec fn fix_facts_step(s: FixFacts, line: Seq<char>) -> FixFacts {
    let t = trim(line);
    let lower = unicode_lowercase(t);
    let s1 = if starts_with(lower, "v"@) && !starts_with(lower, "var"@) {
        FixFacts { used_avx: true, has_vzeroupper: s.has_vzeroupper || starts_with(lower, "vzeroupper"@), ..s }
    } else {
        s
    };
    let s2 = match regex_captures(FIX_RE_PUSH@, t) {
        Some(c) => FixFacts { pushed: add_distinct(s1.pushed, unicode_lowercase(group(c, 1))), ..s1 },
        None => s1,
    };
    let s3 = match regex_captures(FIX_RE_POP@, t) {
        Some(c) => FixFacts { popped: s2.popped.push(unicode_lowercase(group(c, 1))), ..s2 },
        None => s2,
    };
    let s4 = match regex_captures(FIX_RE_DST_REG@, t) {
        Some(c) => FixFacts { modified: s3.modified.push(canonical_reg(unicode_lowercase(group(c, 2)))), ..s3 },
        None => s3,
    };
    if is_match(FIX_RE_CALL@, t) {
        FixFacts { has_call: true, ..s4 }
    } else {
        s4
    }
}

pub open spec fn fix_facts(ls: Seq<Seq<char>>, k: int) -> FixFacts
    decreases k,
{
    if k <= 0 || k > ls.len() {
        fix_facts_initial()
    } else {
        fix_facts_step(fix_facts(ls, k - 1), ls[k - 1])
    }
}

/// The callee-saved registers of `regs` written without a push and a pop.
pub open spec fn regs_to_preserve(f: FixFacts, regs: Seq<Seq<char>>) -> Seq<Seq<char>>
    decreases regs.len(),
{
    if regs.len() == 0 {
        Seq::empty()
    } else {
        let rest = regs_to_preserve(f, regs.drop_last());
        let r = regs.last();
        if f.modified.contains(r) && (!f.pushed.contains(r) || !f.popped.contains(r)) {
            rest.push(r)
        } else {
            rest
        }
    }
}

/// Whether some line matches a pattern.
pub open spec fn any_line_matches(ls: Seq<Seq<char>>, pattern: Seq<char>) -> bool {
    exists|k: int| 0 <= k < ls.len() && is_match(pattern, #[trigger] ls[k])
}

/// What the second pass acts on.
pub struct FixPlan {
    pub regs: Seq<Seq<char>>,
    pub needed: int,
    pub avx_cleanup: bool,
    pub any_sub: bool,
    pub any_add: bool,
}

/// The stack allocation the function needs: with a call, enough to realign
/// RSP to 16 after the return address and the pushes, and on Windows x64 at
/// least 32 bytes of shadow space; none without a call.
pub open spec fn needed_sub_rsp(abi: CallingConvention, has_call: bool, pushes: int) -> int {
    let offset = (8 + pushes * 8) % 16;
    if has_call && abi == CallingConvention::Windows_X64 {
        if offset == 0 { 32 } else { 40 }
    } else if has_call {
        if offset == 8 { 8 } else { 0 }
    } else {
        0
    }
}

pub open spec fn fix_plan(abi: CallingConvention, ls: Seq<Seq<char>>) -> FixPlan {
    let f = fix_facts(ls, ls.len() as int);
    let regs = regs_to_preserve(f, crate::linter::x86_64::x86_callee_saved(abi));
    FixPlan {
        regs,
        needed: needed_sub_rsp(abi, f.has_call, (f.pushed.len() + regs.len()) as int),
        avx_cleanup: f.used_avx && !f.has_vzeroupper,
        any_sub: any_line_matches(ls, FIX_RE_SUB_RSP@),
        any_add: any_line_matches(ls, FIX_RE_ADD_RSP@),
    }
}

// ---------------------------------------------------------------------------
// Second pass: rewriting.

/// The lines written so far and the edits made.
pub struct FixState {
    pub inserted: bool,
    pub out: Seq<Seq<char>>,
    pub edits: Seq<Edit>,
}

pub open spec fn push_line(r: Seq<char>) -> Seq<char> {
    "    push "@ + r
}

pub open spec fn pop_line(r: Seq<char>) -> Seq<char> {
    "    pop "@ + r
}

pub open spec fn push_edit_of(r: Seq<char>, line: Seq<char>) -> Edit {
    edit(
        "CALLEE_SAVED_AUTO_PRESERVE"@,
        "Automatically added prologue 'push "@ + r + "' to preserve callee-saved register."@,
        line,
        push_line(r),
    )
}

pub open spec fn pop_edit_of(r: Seq<char>, line: Seq<char>) -> Edit {
    edit(
        "CALLEE_SAVED_AUTO_RESTORE"@,
        "Automatically inserted 'pop "@ + r + "' before ret to restore callee-saved state."@,
        line,
        pop_line(r),
    )
}

/// The prologue: the label line if the line is one, a push for each register
/// to preserve, and the stack allocation when the function has none.
pub open spec fn fix_prologue(p: FixPlan, s: FixState, line: Seq<char>) -> FixState {
    let t = trim(line);
    let out0 = if ends_with(t, ":"@) { s.out.push(line) } else { s.out };
    let out1 = out0 + p.regs.map_values(|r: Seq<char>| push_line(r));
    let edits1 = s.edits + p.regs.map_values(|r: Seq<char>| push_edit_of(r, line));
    if p.needed > 0 && !p.any_sub {
        let fix = "    sub rsp, "@ + decimal(p.needed);
        FixState {
            inserted: true,
            out: out1.push(fix),
            edits: edits1.push(edit(
                "STACK_ALIGNMENT_AUTO_ALLOCATE"@,
                "Automatically allocated "@ + decimal(p.needed) + " bytes for 16-byte stack alignment & shadow space."@,
                line,
                fix,
            )),
        }
    } else {
        FixState { inserted: true, out: out1, edits: edits1 }
    }
}

/// The epilogue inserted before a `ret`: stack release, pops in reverse
/// order, and `vzeroupper`.
pub open spec fn fix_epilogue(p: FixPlan, s: FixState, line: Seq<char>) -> FixState {
    let s1 = if p.needed > 0 && !p.any_add {
        let fix = "    add rsp, "@ + decimal(p.needed);
        FixState {
            out: s.out.push(fix),
            edits: s.edits.push(edit(
                "STACK_CLEANUP_AUTO_ADD"@,
                "Automatically inserted 'add rsp, "@ + decimal(p.needed) + "' stack cleanup before ret."@,
                line,
                fix,
            )),
            ..s
        }
    } else {
        s
    };
    let rev = p.regs.reverse();
    let s2 = FixState {
        out: s1.out + rev.map_values(|r: Seq<char>| pop_line(r)),
        edits: s1.edits + rev.map_values(|r: Seq<char>| pop_edit_of(r, line)),
        ..s1
    };
    if p.avx_cleanup {
        FixState {
            out: s2.out.push("    vzeroupper"@),
            edits: s2.edits.push(edit("INSERT_VZEROUPPER"@, DESC_VZEROUPPER@, line, "    vzeroupper"@)),
            ..s2
        }
    } else {
        s2
    }
}

/// `mov reg, 0` rewritten as `xor reg32, reg32`.
pub open spec fn mov_zero_fix(c: Seq<Seq<char>>) -> Seq<char> {
    let sub = to_32bit_subreg(unicode_lowercase(group(c, 2)));
    group(c, 1) + "xor "@ + sub + ", "@ + sub + group(c, 3)
}

pub open spec fn mov_zero_edit(c: Seq<Seq<char>>, line: Seq<char>) -> Edit {
    let sub = to_32bit_subreg(unicode_lowercase(group(c, 2)));
    edit(
        "ZERO_LATENCY_IDIOM"@,
        "Replaced inefficient 'mov "@ + group(c, 2) + ", 0' with zero-latency 'xor "@ + sub + ", "@ + sub + "'."@,
        line,
        mov_zero_fix(c),
    )
}

/// The register load of a split 64-bit immediate store.
pub open spec fn imm_load(c: Seq<Seq<char>>) -> Seq<char> {
    group(c, 1) + "mov r11, "@ + group(c, 3) + group(c, 4)
}

/// The store of a split 64-bit immediate store.
pub open spec fn imm_store(c: Seq<Seq<char>>) -> Seq<char> {
    group(c, 1) + "mov "@ + group(c, 2) + ", r11"@
}

/// The rewritten `sub rsp` or `add rsp` line.
pub open spec fn rsp_fix(c: Seq<Seq<char>>, op: Seq<char>, needed: int) -> Seq<char> {
    group(c, 1) + op + " rsp, "@ + decimal(needed) + group(c, 3)
}

/// The rewrite of one line after the prologue question is settled.
pub open spec fn fix_body(p: FixPlan, s: FixState, line: Seq<char>) -> FixState {
    match regex_captures(FIX_RE_MOV_ZERO@, line) {
        Some(c) => FixState {
            out: s.out.push(mov_zero_fix(c)),
            edits: s.edits.push(mov_zero_edit(c, line)),
            ..s
        },
        None => match regex_captures(FIX_RE_MEM_IMM64@, line) {
            Some(c) => FixState {
                out: s.out.push(imm_load(c)).push(imm_store(c)),
                edits: s.edits.push(edit(
                    "SPLIT_64BIT_IMM_MEM_WRITE"@,
                    DESC_SPLIT_IMM64@,
                    line,
                    imm_load(c) + "\n"@ + imm_store(c),
                )),
                ..s
            },
            None => fix_stack_body(p, s, line),
        },
    }
}

/// `sub rsp`/`add rsp` adjustment, epilogue and the line itself.
pub open spec fn fix_stack_body(p: FixPlan, s: FixState, line: Seq<char>) -> FixState {
    let sub = regex_captures(FIX_RE_SUB_RSP@, line);
    let add = regex_captures(FIX_RE_ADD_RSP@, line);
    if sub is Some && p.needed > 0 && trim(rsp_fix(sub->0, "sub"@, p.needed)) != trim(line) {
        let fixed = rsp_fix(sub->0, "sub"@, p.needed);
        FixState {
            out: s.out.push(fixed),
            edits: s.edits.push(edit(
                "ADJUST_STACK_SUB_RSP"@,
                "Adjusted stack allocation to "@ + decimal(p.needed)
                    + " bytes to satisfy 16-byte alignment and ABI requirements."@,
                line,
                fixed,
            )),
            ..s
        }
    } else if add is Some && p.needed > 0 && trim(rsp_fix(add->0, "add"@, p.needed)) != trim(line) {
        let fixed = rsp_fix(add->0, "add"@, p.needed);
        FixState {
            out: s.out.push(fixed),
            edits: s.edits.push(edit(
                "ADJUST_STACK_ADD_RSP"@,
                "Adjusted stack cleanup to "@ + decimal(p.needed) + " bytes."@,
                line,
                fixed,
            )),
            ..s
        }
    } else {
        let s1 = if is_match(FIX_RE_RET@, trim(line)) { fix_epilogue(p, s, line) } else { s };
        FixState { out: s1.out.push(line), ..s1 }
    }
}

/// Whether the prologue goes at this line: a label, or the first code line.
pub open spec fn prologue_here(s: FixState, line: Seq<char>) -> bool {
    let t = trim(line);
    !s.inserted && (ends_with(t, ":"@) || (t.len() > 0 && !starts_with(t, ";"@)))
}

pub open spec fn fix_line(p: FixPlan, s: FixState, line: Seq<char>) -> FixState {
    if prologue_here(s, line) {
        let s1 = fix_prologue(p, s, line);
        if ends_with(trim(line), ":"@) {
            s1
        } else {
            fix_body(p, s1, line)
        }
    } else {
        fix_body(p, s, line)
    }
}

pub open spec fn fix_scan(p: FixPlan, ls: Seq<Seq<char>>, k: int) -> FixState
    decreases k,
{
    if k <= 0 || k > ls.len() {
        FixState { inserted: false, out: Seq::empty(), edits: Seq::empty() }
    } else {
        fix_line(p, fix_scan(p, ls, k - 1), ls[k - 1])
    }
}

/// What the fixer reports for a source text.
pub open spec fn fix_spec(abi: CallingConvention, code: Seq<char>) -> FixReport {
    let ls = lines(code);
    let s = fix_scan(fix_plan(abi, ls), ls, ls.len() as int);
    FixReport {
        original_code: code,
        fixed_code: join(s.out, "\n"@),
        changes_made: s.edits,
        fixes_applied: s.edits.len() as int,
    }
}

// ---------------------------------------------------------------------------
// Executable passes.

/// The first pass's findings, as computed.
pub struct FixFactsScan {
    pub used_avx: bool,
    pub has_vzeroupper: bool,
    pub pushed: Vec<Vec<char>>,
    pub popped: Vec<Vec<char>>,
    pub modified: Vec<Vec<char>>,
    pub has_call: bool,
}

impl View for FixFactsScan {
    type V = FixFacts;

    open spec fn view(&self) -> FixFacts {
        FixFacts {
            used_avx: self.used_avx,
            has_vzeroupper: self.has_vzeroupper,
            pushed: self.pushed.deep_view(),
            popped: self.popped.deep_view(),
            modified: self.modified.deep_view(),
            has_call: self.has_call,
        }
    }
}

fn fix_facts_avx(st: &mut FixFactsScan, lower: &Vec<char>)
    ensures
        final(st)@ == (if starts_with(lower@, "v"@) && !starts_with(lower@, "var"@) {
            FixFacts { used_avx: true, has_vzeroupper: old(st)@.has_vzeroupper || starts_with(lower@, "vzeroupper"@), ..old(st)@ }
        } else {
            old(st)@
        }),
{
    if starts_with_exec(lower, &chars_of("v")) && !starts_with_exec(lower, &chars_of("var")) {
        st.used_avx = true;
        if starts_with_exec(lower, &chars_of("vzeroupper")) {
            st.has_vzeroupper = true;
        }
    }
}

fn fix_facts_line(st: &mut FixFactsScan, line: &Vec<char>)
    ensures
        final(st)@ == fix_facts_step(old(st)@, line@),
{
    let t = trim_chars(line);
    let lower = to_lowercase(&t);
    fix_facts_avx(st, &lower);
    match captures(FIX_RE_PUSH, &t) {
        Some(c) => {
            let r = to_lowercase(&group_of(&c, 1));
            if !contains_text(&st.pushed, &r) {
                push_text(&mut st.pushed, r);
            }
        },
        None => {},
    }
    match captures(FIX_RE_POP, &t) {
        Some(c) => push_text(&mut st.popped, to_lowercase(&group_of(&c, 1))),
        None => {},
    }
    match captures(FIX_RE_DST_REG, &t) {
        Some(c) => push_text(&mut st.modified, canonical_reg_exec(to_lowercase(&group_of(&c, 2)))),
        None => {},
    }
    if is_match_exec(FIX_RE_CALL, &t) {
        st.has_call = true;
    }
}

fn fix_facts_exec(ls: &Vec<Vec<char>>) -> (st: FixFactsScan)
    ensures
        st@ == fix_facts(ls.deep_view(), ls.len() as int),
{
    let mut st = FixFactsScan {
        used_avx: false,
        has_vzeroupper: false,
        pushed: Vec::new(),
        popped: Vec::new(),
        modified: Vec::new(),
        has_call: false,
    };
    proof {
        assert(st@.pushed =~= Seq::<Seq<char>>::empty());
        assert(st@.popped =~= Seq::<Seq<char>>::empty());
        assert(st@.modified =~= Seq::<Seq<char>>::empty());
    }
    let mut i: usize = 0;
    while i < ls.len()
        invariant
            i <= ls.len(),
            st@ == fix_facts(ls.deep_view(), i as int),
        decreases ls.len() - i,
    {
        proof {
            assert(ls.deep_view()[i as int] == ls[i as int]@);
        }
        fix_facts_line(&mut st, &ls[i]);
        i = i + 1;
    }
    st
}

fn regs_to_preserve_exec(f: &FixFactsScan, abi: CallingConvention) -> (v: Vec<Vec<char>>)
    ensures
        v.deep_view() == regs_to_preserve(f@, crate::linter::x86_64::x86_callee_saved(abi)),
        v.len() <= 8,
{
    let regs = crate::linter::x86_64::x86_callee_saved_exec(abi);
    proof {
        assert(regs.deep_view().len() == regs.len());
    }
    let mut v: Vec<Vec<char>> = Vec::new();
    let mut i: usize = 0;
    while i < regs.len()
        invariant
            i <= regs.len(),
            regs.deep_view() == crate::linter::x86_64::x86_callee_saved(abi),
            regs.len() <= 8,
            v.len() <= i,
            v.deep_view() == regs_to_preserve(f@, regs.deep_view().take(i as int)),
        decreases regs.len() - i,
    {
        let r = &regs[i];
        proof {
            let t = regs.deep_view().take(i + 1);
            assert(t.drop_last() =~= regs.deep_view().take(i as int));
            assert(t.last() == regs[i as int]@);
        }
        if contains_text(&f.modified, r) && (!contains_text(&f.pushed, r) || !contains_text(&f.popped, r)) {
            let rc = r.clone();
            proof {
                assert(rc@ == r@);
            }
            push_text(&mut v, rc);
            proof {
                assert(v.deep_view().len() == v.len());
            }
        }
        i = i + 1;
    }
    proof {
        assert(regs.deep_view().take(regs.len() as int) =~= regs.deep_view());
    }
    v
}

fn any_line_matches_exec(ls: &Vec<Vec<char>>, pattern: &str) -> (b: bool)
    ensures
        b == any_line_matches(ls.deep_view(), pattern@),
{
    let mut i: usize = 0;
    while i < ls.len()
        invariant
            i <= ls.len(),
            forall|k: int| 0 <= k < i ==> !is_match(pattern@, #[trigger] ls.deep_view()[k]),
        decreases ls.len() - i,
    {
        proof {
            assert(ls.deep_view()[i as int] == ls[i as int]@);
        }
        if is_match_exec(pattern, &ls[i]) {
            return true;
        }
        i = i + 1;
    }
    false
}

proof fn lemma_offset_parity(pc: int)
    requires
        pc >= 0,
    ensures
        (8 + pc * 8) % 16 == (if pc % 2 == 0 { 8int } else { 0int }),
{
    assert((8 + pc * 8) % 16 == (if pc % 2 == 0 { 8int } else { 0int })) by (nonlinear_arith)
        requires
            pc >= 0,
    ;
}

fn needed_sub_rsp_exec(abi: CallingConvention, has_call: bool, pushed: usize, preserved: usize) -> (n: u64)
    ensures
        n as int == needed_sub_rsp(abi, has_call, pushed + preserved),
        n == 0 || n == 8 || n == 32 || n == 40,
{
    proof {
        lemma_offset_parity(pushed + preserved);
    }
    let even = pushed % 2 == preserved % 2;
    proof {
        assert(even == ((pushed + preserved) % 2 == 0));
    }
    if has_call && abi == CallingConvention::Windows_X64 {
        if !even { 32 } else { 40 }
    } else if has_call {
        if even { 8 } else { 0 }
    } else {
        0
    }
}

/// The plan of the second pass, as computed.
pub struct FixPlanExec {
    pub regs: Vec<Vec<char>>,
    pub needed: u64,
    pub avx_cleanup: bool,
    pub any_sub: bool,
    pub any_add: bool,
}

impl View for FixPlanExec {
    type V = FixPlan;

    open spec fn view(&self) -> FixPlan {
        FixPlan {
            regs: self.regs.deep_view(),
            needed: self.needed as int,
            avx_cleanup: self.avx_cleanup,
            any_sub: self.any_sub,
            any_add: self.any_add,
        }
    }
}

fn fix_plan_exec(abi: CallingConvention, ls: &Vec<Vec<char>>) -> (p: FixPlanExec)
    ensures
        p@ == fix_plan(abi, ls.deep_view()),
{
    let f = fix_facts_exec(ls);
    let regs = regs_to_preserve_exec(&f, abi);
    let needed = needed_sub_rsp_exec(abi, f.has_call, f.pushed.len(), regs.len());
    FixPlanExec {
        regs,
        needed,
        avx_cleanup: f.used_avx && !f.has_vzeroupper,
        any_sub: any_line_matches_exec(ls, FIX_RE_SUB_RSP),
        any_add: any_line_matches_exec(ls, FIX_RE_ADD_RSP),
    }
}

/// The second pass's state, as computed.
pub struct FixScanExec {
    pub inserted: bool,
    pub out: Vec<Vec<char>>,
    pub edits: Vec<AutoFixEdit>,
}

impl View for FixScanExec {
    type V = FixState;

    open spec fn view(&self) -> FixState {
        FixState { inserted: self.inserted, out: self.out.deep_view(), edits: edits_view(self.edits@) }
    }
}

fn text2(a: &str, b: &Vec<char>) -> (r: Vec<char>)
    ensures
        r@ == a@ + b@,
{
    let mut r = chars_of(a);
    append(&mut r, b);
    r
}

fn fix_prologue_exec(p: &FixPlanExec, st: &mut FixScanExec, line: &Vec<char>)
    ensures
        final(st)@ == fix_prologue(p@, old(st)@, line@),
{
    let t = trim_chars(line);
    if ends_with_exec(&t, &chars_of(":")) {
        push_text(&mut st.out, line.clone());
    }
    let ghost out0 = st@.out;
    let ghost edits0 = st@.edits;
    let mut i: usize = 0;
    while i < p.regs.len()
        invariant
            i <= p.regs.len(),
            st@.out == out0 + p@.regs.take(i as int).map_values(|r: Seq<char>| push_line(r)),
            st@.edits == edits0 + p@.regs.take(i as int).map_values(|r: Seq<char>| push_edit_of(r, line@)),
        decreases p.regs.len() - i,
    {
        let r = &p.regs[i];
        proof {
            assert(p@.regs[i as int] == r@);
        }
        let fix = text2("    push ", r);
        let mut desc = text2("Automatically added prologue 'push ", r);
        append_str(&mut desc, "' to preserve callee-saved register.");
        let e = make_edit("CALLEE_SAVED_AUTO_PRESERVE", &desc, line, &fix);
        push_edit(&mut st.edits, e);
        push_text(&mut st.out, fix);
        proof {
            assert(p@.regs.take(i + 1) =~= p@.regs.take(i as int).push(r@));
            assert(st@.out =~= out0 + p@.regs.take(i + 1).map_values(|r: Seq<char>| push_line(r)));
            assert(st@.edits =~= edits0 + p@.regs.take(i + 1).map_values(|r: Seq<char>| push_edit_of(r, line@)));
        }
        i = i + 1;
    }
    proof {
        assert(p@.regs.take(p.regs.len() as int) =~= p@.regs);
    }
    if p.needed > 0 && !p.any_sub {
        let fix = text2("    sub rsp, ", &fmt_u64(p.needed));
        let mut desc = text2("Automatically allocated ", &fmt_u64(p.needed));
        append_str(&mut desc, " bytes for 16-byte stack alignment & shadow space.");
        let e = make_edit("STACK_ALIGNMENT_AUTO_ALLOCATE", &desc, line, &fix);
        push_edit(&mut st.edits, e);
        push_text(&mut st.out, fix);
    }
    st.inserted = true;
}

fn fix_epilogue_exec(p: &FixPlanExec, st: &mut FixScanExec, line: &Vec<char>)
    ensures
        final(st)@ == fix_epilogue(p@, old(st)@, line@),
{
    if p.needed > 0 && !p.any_add {
        let fix = text2("    add rsp, ", &fmt_u64(p.needed));
        let mut desc = text2("Automatically inserted 'add rsp, ", &fmt_u64(p.needed));
        append_str(&mut desc, "' stack cleanup before ret.");
        let e = make_edit("STACK_CLEANUP_AUTO_ADD", &desc, line, &fix);
        push_edit(&mut st.edits, e);
        push_text(&mut st.out, fix);
    }
    let ghost out0 = st@.out;
    let ghost edits0 = st@.edits;
    let ghost rev = p@.regs.reverse();
    let n = p.regs.len();
    let mut i: usize = 0;
    while i < n
        invariant
            i <= n == p.regs.len(),
            rev == p@.regs.reverse(),
            st@.inserted == old(st)@.inserted,
            st@.out == out0 + rev.take(i as int).map_values(|r: Seq<char>| pop_line(r)),
            st@.edits == edits0 + rev.take(i as int).map_values(|r: Seq<char>| pop_edit_of(r, line@)),
        decreases n - i,
    {
        let r = &p.regs[n - 1 - i];
        proof {
            assert(rev[i as int] == p@.regs[n - 1 - i]);
            assert(p@.regs[n - 1 - i] == r@);
        }
        let fix = text2("    pop ", r);
        let mut desc = text2("Automatically inserted 'pop ", r);
        append_str(&mut desc, "' before ret to restore callee-saved state.");
        let e = make_edit("CALLEE_SAVED_AUTO_RESTORE", &desc, line, &fix);
        push_edit(&mut st.edits, e);
        push_text(&mut st.out, fix);
        proof {
            assert(rev.take(i + 1) =~= rev.take(i as int).push(r@));
            assert(st@.out =~= out0 + rev.take(i + 1).map_values(|r: Seq<char>| pop_line(r)));
            assert(st@.edits =~= edits0 + rev.take(i + 1).map_values(|r: Seq<char>| pop_edit_of(r, line@)));
        }
        i = i + 1;
    }
    proof {
        assert(rev.take(n as int) =~= rev);
    }
    if p.avx_cleanup {
        let fix = chars_of("    vzeroupper");
        let e = make_edit("INSERT_VZEROUPPER", &chars_of(DESC_VZEROUPPER), line, &fix);
        push_edit(&mut st.edits, e);
        push_text(&mut st.out, fix);
    }
}

fn rsp_fix_exec(c: &Vec<Vec<char>>, op: &str, needed: u64) -> (r: Vec<char>)
    ensures
        r@ == rsp_fix(c.deep_view(), op@, needed as int),
{
    let mut r = group_of(c, 1);
    append_str(&mut r, op);
    append_str(&mut r, " rsp, ");
    append(&mut r, &fmt_u64(needed));
    append(&mut r, &group_of(c, 3));
    r
}

fn fix_stack_body_exec(p: &FixPlanExec, st: &mut FixScanExec, line: &Vec<char>)
    ensures
        final(st)@ == fix_stack_body(p@, old(st)@, line@),
{
    let sub = captures(FIX_RE_SUB_RSP, line);
    let add = captures(FIX_RE_ADD_RSP, line);
    let tl = trim_chars(line);
    let mut sub_fix: Option<Vec<char>> = None;
    match &sub {
        Some(c) => {
            if p.needed > 0 {
                let fixed = rsp_fix_exec(c, "sub", p.needed);
                if !eq_chars(&trim_chars(&fixed), &tl) {
                    sub_fix = Some(fixed);
                }
            }
        },
        None => {},
    }
    match sub_fix {
        Some(fixed) => {
            let mut desc = text2("Adjusted stack allocation to ", &fmt_u64(p.needed));
            append_str(&mut desc, " bytes to satisfy 16-byte alignment and ABI requirements.");
            let e = make_edit("ADJUST_STACK_SUB_RSP", &desc, line, &fixed);
            push_edit(&mut st.edits, e);
            push_text(&mut st.out, fixed);
            return;
        },
        None => {},
    }
    let mut add_fix: Option<Vec<char>> = None;
    match &add {
        Some(c) => {
            if p.needed > 0 {
                let fixed = rsp_fix_exec(c, "add", p.needed);
                if !eq_chars(&trim_chars(&fixed), &tl) {
                    add_fix = Some(fixed);
                }
            }
        },
        None => {},
    }
    match add_fix {
        Some(fixed) => {
            let mut desc = text2("Adjusted stack cleanup to ", &fmt_u64(p.needed));
            append_str(&mut desc, " bytes.");
            let e = make_edit("ADJUST_STACK_ADD_RSP", &desc, line, &fixed);
            push_edit(&mut st.edits, e);
            push_text(&mut st.out, fixed);
            return;
        },
        None => {},
    }
    if is_match_exec(FIX_RE_RET, &tl) {
        fix_epilogue_exec(p, st, line);
    }
    push_text(&mut st.out, line.clone());
}

fn fix_body_exec(p: &FixPlanExec, st: &mut FixScanExec, line: &Vec<char>)
    ensures
        final(st)@ == fix_body(p@, old(st)@, line@),
{
    match captures(FIX_RE_MOV_ZERO, line) {
        Some(c) => {
            let reg = group_of(&c, 2);
            let sub = to_32bit_subreg_exec(&to_lowercase(&reg));
            let mut fixed = group_of(&c, 1);
            append_str(&mut fixed, "xor ");
            append(&mut fixed, &sub);
            append_str(&mut fixed, ", ");
            append(&mut fixed, &sub);
            append(&mut fixed, &group_of(&c, 3));
            let mut desc = text2("Replaced inefficient 'mov ", &reg);
            append_str(&mut desc, ", 0' with zero-latency 'xor ");
            append(&mut desc, &sub);
            append_str(&mut desc, ", ");
            append(&mut desc, &sub);
            append_str(&mut desc, "'.");
            let e = make_edit("ZERO_LATENCY_IDIOM", &desc, line, &fixed);
            push_edit(&mut st.edits, e);
            push_text(&mut st.out, fixed);
        },
        None => match captures(FIX_RE_MEM_IMM64, line) {
            Some(c) => {
                let indent = group_of(&c, 1);
                let mut load = indent.clone();
                append_str(&mut load, "mov r11, ");
                append(&mut load, &group_of(&c, 3));
                append(&mut load, &group_of(&c, 4));
                let mut store = indent;
                append_str(&mut store, "mov ");
                append(&mut store, &group_of(&c, 2));
                append_str(&mut store, ", r11");
                let mut both = load.clone();
                append_str(&mut both, "\n");
                append(&mut both, &store);
                let e = make_edit("SPLIT_64BIT_IMM_MEM_WRITE", &chars_of(DESC_SPLIT_IMM64), line, &both);
                push_edit(&mut st.edits, e);
                push_text(&mut st.out, load);
                push_text(&mut st.out, store);
            },
            None => fix_stack_body_exec(p, st, line),
        },
    }
}

/// One line of the second pass: the state after it.
pub fn fix_line_exec(p: &FixPlanExec, st: &mut FixScanExec, line: &Vec<char>)
    ensures
        final(st)@ == fix_line(p@, old(st)@, line@),
{
    let t = trim_chars(line);
    let label = ends_with_exec(&t, &chars_of(":"));
    let here = !st.inserted && (label || (t.len() > 0 && !starts_with_exec(&t, &chars_of(";"))));
    if here {
        fix_prologue_exec(p, st, line);
        if !label {
            fix_body_exec(p, st, line);
        }
    } else {
        fix_body_exec(p, st, line);
    }
}

/// Rewrites x86_64 assembly to satisfy a calling convention.
pub struct AssemblyAutoFixer {
    abi: CallingConvention,
}

impl AssemblyAutoFixer {
    /// The convention the fixer repairs for.
    pub closed spec fn convention(&self) -> CallingConvention {
        self.abi
    }

    pub fn new(abi: CallingConvention) -> (f: Self)
        ensures
            f.convention() == abi,
    {
        AssemblyAutoFixer { abi }
    }

    /// Repairs a source text in two passes: the first gathers what the
    /// function does, the second rewrites line by line.
    #[verifier::spinoff_prover]
    pub fn fix(&self, code: &str) -> (report: AutoFixReport)
        ensures
            report@ == fix_spec(self.convention(), code@),
    {
        let cs = chars_of(code);
        let ls = split_lines(&cs);
        let p = fix_plan_exec(self.abi, &ls);
        let mut st = FixScanExec { inserted: false, out: Vec::new(), edits: Vec::new() };
        proof {
            assert(st@.out =~= Seq::<Seq<char>>::empty());
            assert(st@.edits =~= Seq::<Edit>::empty());
        }
        let mut i: usize = 0;
        while i < ls.len()
            invariant
                i <= ls.len(),
                ls.deep_view() == lines(cs@),
                p@ == fix_plan(self.abi, ls.deep_view()),
                st@ == fix_scan(p@, ls.deep_view(), i as int),
            decreases ls.len() - i,
        {
            proof {
                assert(ls.deep_view()[i as int] == ls[i as int]@);
            }
            fix_line_exec(&p, &mut st, &ls[i]);
            i = i + 1;
        }
        let fixed_code = string_of(&join_exec(&st.out, "\n"));
        let fixes_applied = st.edits.len();
        AutoFixReport { original_code: string_from(code), fixed_code, changes_made: st.edits, fixes_applied }
    }
}


/// `b` is `a` with edits of `line` added at the end.
pub open spec fn adds_edits(a: Seq<Edit>, b: Seq<Edit>, line: Seq<char>) -> bool {
    &&& a.len() <= b.len()
    &&& b.take(a.len() as int) == a
    &&& forall|i: int| a.len() <= i < b.len() ==> (#[trigger] b[i]).original_line == line
}

proof fn lemma_adds_refl(a: Seq<Edit>, line: Seq<char>)
    ensures
        adds_edits(a, a, line),
{
    assert(a.take(a.len() as int) =~= a);
}

proof fn lemma_adds_trans(a: Seq<Edit>, b: Seq<Edit>, c: Seq<Edit>, line: Seq<char>)
    requires
        adds_edits(a, b, line),
        adds_edits(b, c, line),
    ensures
        adds_edits(a, c, line),
{
    assert(c.take(a.len() as int) =~= c.take(b.len() as int).take(a.len() as int));
    assert forall|i: int| a.len() <= i < c.len() implies (#[trigger] c[i]).original_line == line by {
        if i < b.len() {
            assert(c[i] == c.take(b.len() as int)[i]);
        }
    }
}

proof fn lemma_adds_push(a: Seq<Edit>, b: Seq<Edit>, e: Edit, line: Seq<char>)
    requires
        adds_edits(a, b, line),
        e.original_line == line,
    ensures
        adds_edits(a, b.push(e), line),
{
    assert(b.push(e).take(a.len() as int) =~= b.take(a.len() as int));
}

proof fn lemma_adds_concat(a: Seq<Edit>, extra: Seq<Edit>, line: Seq<char>)
    requires
        forall|i: int| 0 <= i < extra.len() ==> (#[trigger] extra[i]).original_line == line,
    ensures
        adds_edits(a, a + extra, line),
{
    assert((a + extra).take(a.len() as int) =~= a);
    assert forall|i: int| a.len() <= i < (a + extra).len() implies (#[trigger] (a + extra)[i]).original_line == line by {
        assert((a + extra)[i] == extra[i - a.len()]);
    }
}

proof fn lemma_prologue_edits(p: FixPlan, s: FixState, line: Seq<char>)
    ensures
        adds_edits(s.edits, fix_prologue(p, s, line).edits, line),
        fix_prologue(p, s, line).edits.len() == s.edits.len() ==> fix_prologue(p, s, line).out
            == (if ends_with(trim(line), ":"@) { s.out.push(line) } else { s.out }),
{
    let pushes = p.regs.map_values(|r: Seq<char>| push_edit_of(r, line));
    lemma_adds_concat(s.edits, pushes, line);
    let edits1 = s.edits + pushes;
    let out0 = if ends_with(trim(line), ":"@) { s.out.push(line) } else { s.out };
    if p.needed > 0 && !p.any_sub {
        let fix = "    sub rsp, "@ + decimal(p.needed);
        lemma_adds_push(s.edits, edits1, edit(
            "STACK_ALIGNMENT_AUTO_ALLOCATE"@,
            "Automatically allocated "@ + decimal(p.needed) + " bytes for 16-byte stack alignment & shadow space."@,
            line,
            fix,
        ), line);
    } else if edits1.len() == s.edits.len() {
        assert(p.regs.len() == 0);
        assert(out0 + p.regs.map_values(|r: Seq<char>| push_line(r)) =~= out0);
    }
}

proof fn lemma_epilogue_edits(p: FixPlan, s: FixState, line: Seq<char>)
    ensures
        adds_edits(s.edits, fix_epilogue(p, s, line).edits, line),
        fix_epilogue(p, s, line).edits.len() == s.edits.len() ==> fix_epilogue(p, s, line).out == s.out,
{
    lemma_adds_refl(s.edits, line);
    let s1 = if p.needed > 0 && !p.any_add {
        let fix = "    add rsp, "@ + decimal(p.needed);
        FixState {
            out: s.out.push(fix),
            edits: s.edits.push(edit(
                "STACK_CLEANUP_AUTO_ADD"@,
                "Automatically inserted 'add rsp, "@ + decimal(p.needed) + "' stack cleanup before ret."@,
                line,
                fix,
            )),
            ..s
        }
    } else {
        s
    };
    if p.needed > 0 && !p.any_add {
        lemma_adds_push(s.edits, s.edits, s1.edits.last(), line);
    }
    let rev = p.regs.reverse();
    let pops = rev.map_values(|r: Seq<char>| pop_edit_of(r, line));
    lemma_adds_concat(s1.edits, pops, line);
    lemma_adds_trans(s.edits, s1.edits, s1.edits + pops, line);
    let s2 = FixState {
        out: s1.out + rev.map_values(|r: Seq<char>| pop_line(r)),
        edits: s1.edits + pops,
        ..s1
    };
    if p.avx_cleanup {
        lemma_adds_push(s.edits, s2.edits, edit("INSERT_VZEROUPPER"@, DESC_VZEROUPPER@, line, "    vzeroupper"@), line);
    } else if s2.edits.len() == s.edits.len() {
        assert(rev.len() == 0);
        assert(s2.out =~= s.out);
    }
}

proof fn lemma_body_edits(p: FixPlan, s: FixState, line: Seq<char>)
    ensures
        adds_edits(s.edits, fix_body(p, s, line).edits, line),
        fix_body(p, s, line).edits.len() == s.edits.len() ==> fix_body(p, s, line).out == s.out.push(line),
{
    lemma_adds_refl(s.edits, line);
    match regex_captures(FIX_RE_MOV_ZERO@, line) {
        Some(c) => {
            lemma_adds_push(s.edits, s.edits, mov_zero_edit(c, line), line);
        },
        None => match regex_captures(FIX_RE_MEM_IMM64@, line) {
            Some(c) => {
                lemma_adds_push(s.edits, s.edits, edit(
                    "SPLIT_64BIT_IMM_MEM_WRITE"@,
                    DESC_SPLIT_IMM64@,
                    line,
                    imm_load(c) + "\n"@ + imm_store(c),
                ), line);
            },
            None => {
                let sub = regex_captures(FIX_RE_SUB_RSP@, line);
                let add = regex_captures(FIX_RE_ADD_RSP@, line);
                let r = fix_stack_body(p, s, line);
                if sub is Some && p.needed > 0 && trim(rsp_fix(sub->0, "sub"@, p.needed)) != trim(line) {
                    lemma_adds_push(s.edits, s.edits, r.edits.last(), line);
                } else if add is Some && p.needed > 0 && trim(rsp_fix(add->0, "add"@, p.needed)) != trim(line) {
                    lemma_adds_push(s.edits, s.edits, r.edits.last(), line);
                } else {
                    lemma_epilogue_edits(p, s, line);
                }
            },
        },
    }
}

proof fn lemma_line_edits(p: FixPlan, s: FixState, line: Seq<char>)
    ensures
        adds_edits(s.edits, fix_line(p, s, line).edits, line),
        fix_line(p, s, line).edits.len() == s.edits.len() ==> fix_line(p, s, line).out == s.out.push(line),
{
    if prologue_here(s, line) {
        let s1 = fix_prologue(p, s, line);
        lemma_prologue_edits(p, s, line);
        if !ends_with(trim(line), ":"@) {
            lemma_body_edits(p, s1, line);
            lemma_adds_trans(s.edits, s1.edits, fix_body(p, s1, line).edits, line);
        }
    } else {
        lemma_body_edits(p, s, line);
    }
}

proof fn lemma_fix_scan(p: FixPlan, ls: Seq<Seq<char>>, k: int)
    requires
        0 <= k <= ls.len(),
    ensures
        fix_scan(p, ls, k).edits.len() == 0 ==> fix_scan(p, ls, k).out == ls.take(k),
        forall|i: int| 0 <= i < fix_scan(p, ls, k).edits.len() ==>
            exists|j: int| 0 <= j < k && ls[j] == (#[trigger] fix_scan(p, ls, k).edits[i]).original_line,
    decreases k,
{
    if k > 0 {
        lemma_fix_scan(p, ls, k - 1);
        let s = fix_scan(p, ls, k - 1);
        let r = fix_scan(p, ls, k);
        lemma_line_edits(p, s, ls[k - 1]);
        if r.edits.len() == 0 {
            assert(ls.take(k) =~= ls.take(k - 1).push(ls[k - 1]));
        }
        assert forall|i: int| 0 <= i < r.edits.len() implies
            exists|j: int| 0 <= j < k && ls[j] == (#[trigger] r.edits[i]).original_line by {
            if i < s.edits.len() {
                assert(r.edits[i] == r.edits.take(s.edits.len() as int)[i]);
                let j = choose|j: int| 0 <= j < k - 1 && ls[j] == s.edits[i].original_line;
                assert(0 <= j < k && ls[j] == r.edits[i].original_line);
            } else {
                assert(ls[k - 1] == r.edits[i].original_line);
            }
        }
    } else {
        assert(ls.take(0) =~= Seq::<Seq<char>>::empty());
    }
}

/// The fixer changes nothing it does not report: with no edit, the fixed text
/// is the original's lines joined again; every reported edit names a line of
/// the original text; and the count of fixes is the number of edits.
pub proof fn law_fix_reports_every_change(abi: CallingConvention, code: Seq<char>)
    ensures
        fix_spec(abi, code).fixes_applied == fix_spec(abi, code).changes_made.len(),
        fix_spec(abi, code).fixes_applied == 0 ==> fix_spec(abi, code).fixed_code == join(lines(code), "\n"@),
        forall|i: int| 0 <= i < fix_spec(abi, code).changes_made.len() ==>
            lines(code).contains((#[trigger] fix_spec(abi, code).changes_made[i]).original_line),
{
    let ls = lines(code);
    lemma_fix_scan(fix_plan(abi, ls), ls, ls.len() as int);
    assert(ls.take(ls.len() as int) =~= ls);
    let es = fix_spec(abi, code).changes_made;
    assert forall|i: int| 0 <= i < es.len() implies lines(code).contains((#[trigger] es[i]).original_line) by {
        let j = choose|j: int| 0 <= j < ls.len() && ls[j] == es[i].original_line;
        assert(ls[j] == es[i].original_line);
    }
}


proof fn lemma_fix_scan_grows(p: FixPlan, ls: Seq<Seq<char>>, j: int, k: int)
    requires
        0 <= j <= k <= ls.len(),
    ensures
        fix_scan(p, ls, j).edits.len() <= fix_scan(p, ls, k).edits.len(),
        fix_scan(p, ls, k).edits.take(fix_scan(p, ls, j).edits.len() as int) == fix_scan(p, ls, j).edits,
    decreases k - j,
{
    let a = fix_scan(p, ls, j).edits;
    if j == k {
        assert(a.take(a.len() as int) =~= a);
    } else {
        lemma_fix_scan_grows(p, ls, j, k - 1);
        let m = fix_scan(p, ls, k - 1).edits;
        lemma_line_edits(p, fix_scan(p, ls, k - 1), ls[k - 1]);
        let b = fix_scan(p, ls, k).edits;
        assert(b.take(a.len() as int) =~= b.take(m.len() as int).take(a.len() as int));
    }
}

proof fn lemma_body_mov_zero(p: FixPlan, s: FixState, line: Seq<char>)
    requires
        regex_captures(FIX_RE_MOV_ZERO@, line) is Some,
    ensures
        fix_body(p, s, line).edits == s.edits.push(mov_zero_edit(regex_captures(FIX_RE_MOV_ZERO@, line)->0, line)),
        fix_body(p, s, line).out == s.out.push(mov_zero_fix(regex_captures(FIX_RE_MOV_ZERO@, line)->0)),
{
}

/// Every `mov reg, 0` line of a general register that is not a label line
/// is rewritten to the zero-latency `xor` of its 32-bit register, and the
/// rewrite is reported as a change of that line.
pub proof fn law_fix_rewrites_zeroing(abi: CallingConvention, code: Seq<char>, k: int)
    requires
        0 <= k < lines(code).len(),
        regex_captures(FIX_RE_MOV_ZERO@, lines(code)[k]) is Some,
        !ends_with(trim(lines(code)[k]), ":"@),
    ensures
        fix_spec(abi, code).changes_made.contains(
            mov_zero_edit(regex_captures(FIX_RE_MOV_ZERO@, lines(code)[k])->0, lines(code)[k]),
        ),
{
    let ls = lines(code);
    let p = fix_plan(abi, ls);
    let line = ls[k];
    let c = regex_captures(FIX_RE_MOV_ZERO@, line)->0;
    let s = fix_scan(p, ls, k);
    let e = mov_zero_edit(c, line);
    let after = fix_scan(p, ls, k + 1).edits;
    if prologue_here(s, line) {
        let s1 = fix_prologue(p, s, line);
        lemma_body_mov_zero(p, s1, line);
        assert(after == s1.edits.push(e));
    } else {
        lemma_body_mov_zero(p, s, line);
        assert(after == s.edits.push(e));
    }
    let i = after.len() - 1;
    assert(after[i] == e);
    lemma_fix_scan_grows(p, ls, k + 1, ls.len() as int);
    let fin = fix_scan(p, ls, ls.len() as int).edits;
    assert(fin[i] == fin.take(after.len() as int)[i]);
    assert(fix_spec(abi, code).changes_made[i] == e);
}

/// The stack allocation the fixer adds for a function that calls out
/// realigns the stack: after the return address, the `pushes` pushes and the
/// allocation, RSP is a multiple of 16 at the call, and on Windows x64 the
/// allocation covers the 32 bytes of shadow space.
pub proof fn law_fix_allocation_realigns(abi: CallingConvention, pushes: int)
    requires
        pushes >= 0,
    ensures
        needed_sub_rsp(abi, true, pushes) >= 0,
        (8 + 8 * pushes + needed_sub_rsp(abi, true, pushes)) % 16 == 0,
        abi == CallingConvention::Windows_X64 ==> needed_sub_rsp(abi, true, pushes) >= 32,
        needed_sub_rsp(abi, false, pushes) == 0,
{
    let offset = (8 + pushes * 8) % 16;
    assert(offset == 0 || offset == 8) by (nonlinear_arith)
        requires
            offset == (8 + pushes * 8) % 16,
            pushes >= 0,
    ;
}


/// Registers are restored last-in first-out: the prologue pushes the
/// registers to preserve in order, right after the label line (if any), and
/// the epilogue before a `ret` pops them in the reverse order, right after
/// the stack release (if any), so that the `i`-th pop restores the register
/// the `i`-th push from the end saved.
pub proof fn law_pops_reverse_pushes(p: FixPlan, s: FixState, line: Seq<char>, s2: FixState, ret_line: Seq<char>)
    ensures
        ({
            let n = p.regs.len() as int;
            let pro = fix_prologue(p, s, line).out;
            let a = s.out.len() + if ends_with(trim(line), ":"@) { 1int } else { 0int };
            let epi = fix_epilogue(p, s2, ret_line).out;
            let b = s2.out.len() + if p.needed > 0 && !p.any_add { 1int } else { 0int };
            &&& pro.len() >= a + n
            &&& epi.len() >= b + n
            &&& forall|i: int| 0 <= i < n ==> #[trigger] pro[a + i] == push_line(p.regs[i])
            &&& forall|i: int| 0 <= i < n ==> #[trigger] epi[b + i] == pop_line(p.regs[n - 1 - i])
        }),
{
    let n = p.regs.len() as int;
    let rev = p.regs.reverse();
    let pops = rev.map_values(|r: Seq<char>| pop_line(r));
    let pushes = p.regs.map_values(|r: Seq<char>| push_line(r));
    let t = trim(line);
    let out0 = if ends_with(t, ":"@) { s.out.push(line) } else { s.out };
    let out1 = out0 + pushes;
    assert forall|i: int| 0 <= i < n implies #[trigger] out1[out0.len() + i] == push_line(p.regs[i]) by {
        assert(out1[out0.len() + i] == pushes[i]);
    }
    let s1 = if p.needed > 0 && !p.any_add {
        FixState { out: s2.out.push("    add rsp, "@ + decimal(p.needed)), ..s2 }
    } else {
        s2
    };
    let o2 = s1.out + pops;
    assert forall|i: int| 0 <= i < n implies #[trigger] o2[s1.out.len() + i] == pop_line(p.regs[n - 1 - i]) by {
        assert(o2[s1.out.len() + i] == pops[i]);
        assert(rev[i] == p.regs[n - 1 - i]);
    }
    let pro = fix_prologue(p, s, line).out;
    let epi = fix_epilogue(p, s2, ret_line).out;
    assert forall|i: int| 0 <= i < n implies #[trigger] pro[out0.len() + i] == push_line(p.regs[i]) by {
        assert(pro[out0.len() + i] == out1[out0.len() + i]);
    }
    assert forall|i: int| 0 <= i < n implies #[trigger] epi[s1.out.len() + i] == pop_line(p.regs[n - 1 - i]) by {
        assert(epi[s1.out.len() + i] == o2[s1.out.len() + i]);
    }
}


/// The stack space the prologue allocates (after the pushes) is the space
/// the epilogue releases (before the pops): both are the plan's `needed`
/// bytes, so the stack is balanced again at the `ret`.
pub proof fn law_epilogue_releases_prologue_allocation(p: FixPlan, s: FixState, line: Seq<char>, s2: FixState, ret_line: Seq<char>)
    requires
        p.needed > 0,
        !p.any_sub,
        !p.any_add,
    ensures
        ({
            let n = p.regs.len() as int;
            let pro = fix_prologue(p, s, line).out;
            let a = s.out.len() + if ends_with(trim(line), ":"@) { 1int } else { 0int };
            let epi = fix_epilogue(p, s2, ret_line).out;
            &&& pro.len() == a + n + 1
            &&& pro[a + n] == "    sub rsp, "@ + decimal(p.needed)
            &&& epi[s2.out.len() as int] == "    add rsp, "@ + decimal(p.needed)
            &&& epi.take(s2.out.len() as int) == s2.out
        }),
{
    let e1 = s2.out.push("    add rsp, "@ + decimal(p.needed));
    let rev = p.regs.reverse();
    let o2 = e1 + rev.map_values(|r: Seq<char>| pop_line(r));
    assert(o2[s2.out.len() as int] == e1[s2.out.len() as int]);
    let epi = fix_epilogue(p, s2, ret_line).out;
    assert(epi[s2.out.len() as int] == o2[s2.out.len() as int]);
    assert(epi.take(s2.out.len() as int) =~= s2.out);
}

} // verus!
