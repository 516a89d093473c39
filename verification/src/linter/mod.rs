//! Static ABI linters for x86_64, AArch64 and RISC-V assembly.
pub mod arm64;
pub mod common;
pub mod riscv;
pub mod x86_64;

use vstd::prelude::*;
use crate::linter::arm64::{arm_lint, Arm64Linter};
use crate::linter::riscv::{riscv_lint, RiscvLinter};
use crate::linter::x86_64::{x86_lint, X86_64Linter};
use crate::types::{diags_view, Arch, CallingConvention, Diag, LintDiagnostic};
use crate::linter::x86_64::{X86Facts, X86State};

verus! {

/// The convention used when none is given: System V on x86_64, AAPCS64 on
/// AArch64 and LP64 on RISC-V.
pub open spec fn default_convention(arch: Arch) -> CallingConvention {
    match arch {
        Arch::Arm64 => CallingConvention::Arm64_AAPCS,
        Arch::Riscv64 => CallingConvention::Riscv_LP64,
        _ => CallingConvention::SystemV_AMD64,
    }
}

/// What `lint_assembly` reports: the linter of the architecture, under the
/// given convention or the default one; nothing for other architectures.
pub open spec fn lint_spec(code: Seq<char>, arch: Arch, abi: Option<CallingConvention>) -> Seq<Diag> {
    let conv = match abi {
        Some(a) => a,
        None => default_convention(arch),
    };
    match arch {
        Arch::X86_64 => x86_lint(conv, code),
        Arch::Arm64 => arm_lint(code),
        Arch::Riscv64 => riscv_lint(code),
        _ => Seq::empty(),
    }
}

/// Lints `code` for `arch`. The length bound is that of any Rust string
/// (`isize::MAX` bytes).
pub fn lint_assembly(code: &str, arch: Arch, abi: Option<CallingConvention>) -> (res: Vec<LintDiagnostic>)
    requires
        code@.len() < 0x8000_0000_0000_0000,
    ensures
        diags_view(res@) == lint_spec(code@, arch, abi),
{
    match arch {
        Arch::X86_64 => {
            let selected_abi = match abi {
                Some(a) => a,
                None => CallingConvention::SystemV_AMD64,
            };
            let linter = X86_64Linter::new(selected_abi);
            linter.lint(code)
        },
        Arch::Arm64 => {
            let selected_abi = match abi {
                Some(a) => a,
                None => CallingConvention::Arm64_AAPCS,
            };
            let linter = Arm64Linter::new(selected_abi);
            linter.lint(code)
        },
        Arch::Riscv64 => {
            let selected_abi = match abi {
                Some(a) => a,
                None => CallingConvention::Riscv_LP64,
            };
            let linter = RiscvLinter::new(selected_abi);
            linter.lint(code)
        },
        _ => {
            let v: Vec<LintDiagnostic> = Vec::new();
            proof {
                assert(diags_view(v@) =~= Seq::<Diag>::empty());
            }
            v
        },
    }
}

// ---------------------------------------------------------------------------
// Laws.

proof fn lemma_x86_clobber_none(abi: CallingConvention, pu: Seq<Seq<char>>, po: Seq<Seq<char>>, regs: Seq<Seq<char>>, ln: int)
    ensures
        crate::linter::x86_64::clobber_diags(abi, pu, po, Seq::empty(), regs, ln) == Seq::<Diag>::empty(),
    decreases regs.len(),
{
    if regs.len() > 0 {
        lemma_x86_clobber_none(abi, pu, po, regs.drop_last(), ln);
    }
}

proof fn lemma_arm_clobber_none(s: crate::linter::arm64::ArmState, regs: Seq<Seq<char>>, ln: int)
    requires
        s.modified.len() == 0,
    ensures
        crate::linter::arm64::arm_clobber_diags(s, regs, ln) == Seq::<Diag>::empty(),
    decreases regs.len(),
{
    if regs.len() > 0 {
        lemma_arm_clobber_none(s, regs.drop_last(), ln);
    }
}

proof fn lemma_riscv_clobber_none(s: crate::linter::riscv::RiscvState, regs: Seq<Seq<char>>, ln: int)
    requires
        s.modified.len() == 0,
    ensures
        crate::linter::riscv::riscv_clobber_diags(s, regs, ln) == Seq::<Diag>::empty(),
    decreases regs.len(),
{
    if regs.len() > 0 {
        lemma_riscv_clobber_none(s, regs.drop_last(), ln);
    }
}

/// An empty text draws no diagnostic, whatever the architecture and
/// convention.
pub proof fn law_empty_text_is_clean(arch: Arch, abi: Option<CallingConvention>)
    ensures
        lint_spec(Seq::empty(), arch, abi) == Seq::<Diag>::empty(),
{
    let e = Seq::<char>::empty();
    assert(crate::text::lines(e) =~= Seq::<Seq<char>>::empty());
    let conv = match abi {
        Some(a) => a,
        None => default_convention(arch),
    };
    let s = crate::linter::x86_64::x86_scan(conv, Seq::empty(), 0);
    lemma_x86_clobber_none(conv, s.pushed, s.popped, crate::linter::x86_64::x86_callee_saved(conv), 0);
    assert(crate::linter::x86_64::xmm_diags(Seq::empty(), 0) == Seq::<Diag>::empty());
    lemma_arm_clobber_none(crate::linter::arm64::arm_initial(), crate::linter::arm64::arm_callee_saved(), 0);
    lemma_riscv_clobber_none(crate::linter::riscv::riscv_initial(), crate::linter::riscv::riscv_callee_saved(), 0);
    assert(crate::linter::x86_64::x86_lint(conv, e) =~= Seq::<Diag>::empty());
    assert(arm_lint(e) =~= Seq::<Diag>::empty());
    assert(riscv_lint(e) =~= Seq::<Diag>::empty());
}

/// Architectures without a linter (32-bit x86 and ARM) draw no diagnostic.
pub proof fn law_unlinted_architectures(code: Seq<char>, abi: Option<CallingConvention>)
    ensures
        lint_spec(code, Arch::X86_32, abi) == Seq::<Diag>::empty(),
        lint_spec(code, Arch::Arm32, abi) == Seq::<Diag>::empty(),
{
}

/// The AArch64 and RISC-V checks do not depend on the calling convention.
pub proof fn law_convention_free_linters(code: Seq<char>, a: Option<CallingConvention>, b: Option<CallingConvention>)
    ensures
        lint_spec(code, Arch::Arm64, a) == lint_spec(code, Arch::Arm64, b),
        lint_spec(code, Arch::Riscv64, a) == lint_spec(code, Arch::Riscv64, b),
{
}

/// Every diagnostic sits at column 1 of a line between 1 and `n`.
pub open spec fn diags_within(ds: Seq<Diag>, n: int) -> bool {
    forall|i: int| 0 <= i < ds.len() ==> (#[trigger] ds[i]).col == 1 && 1 <= ds[i].line <= n
}

/// What the x86_64 scan keeps true after `k` lines.
pub open spec fn x86_scan_within(s: X86State, k: int) -> bool {
    &&& diags_within(s.diags, k)
    &&& s.had_imul ==> 1 <= s.imul_line <= k
    &&& s.had_idiv ==> 1 <= s.idiv_line <= k
    &&& (s.modified.len() > 0 || s.used_avx || s.modified_xmm.len() > 0) ==> k >= 1
}

proof fn lemma_within_push(ds: Seq<Diag>, d: Diag, n: int)
    requires
        diags_within(ds, n),
        d.col == 1,
        1 <= d.line <= n,
    ensures
        diags_within(ds.push(d), n),
{
    assert forall|i: int| 0 <= i < ds.push(d).len() implies (#[trigger] ds.push(d)[i]).col == 1 && 1 <= ds.push(d)[i].line <= n by {
        if i < ds.len() {
            assert(ds.push(d)[i] == ds[i]);
        }
    }
}

proof fn lemma_within_grow(ds: Seq<Diag>, n: int, m: int)
    requires
        diags_within(ds, n),
        n <= m,
    ensures
        diags_within(ds, m),
{
}

proof fn lemma_movaps_within(s: X86State, k: int, t: Seq<char>, f: X86Facts)
    requires
        diags_within(s.diags, k),
        k >= 1,
    ensures
        diags_within(x86_64::x86_movaps(s, k, t, f).diags, k),
{
    match f.movaps {
        Some(c) => {
            if crate::text::find_char(t, '[') is Some {
                lemma_within_push(s.diags, x86_64::vector_align_diag(k, crate::pattern::group(c, 1)), k);
            }
        },
        None => {},
    }
}

proof fn lemma_call_within(abi: CallingConvention, s: X86State, k: int, f: X86Facts)
    requires
        diags_within(s.diags, k),
        k >= 1,
    ensures
        diags_within(x86_64::x86_call(abi, s, k, f).diags, k),
{
    if f.call {
        let a = if x86_64::rem16(s.stack_offset) != 0 {
            s.diags.push(x86_64::stack_align_diag(k, s.stack_offset))
        } else {
            s.diags
        };
        if x86_64::rem16(s.stack_offset) != 0 {
            lemma_within_push(s.diags, x86_64::stack_align_diag(k, s.stack_offset), k);
        }
        if abi == CallingConvention::Windows_X64 {
            lemma_within_push(a, x86_64::shadow_diag(k, s.shadow_space), k);
        }
    }
}

proof fn lemma_notes_within(s: X86State, k: int, f: X86Facts)
    requires
        diags_within(s.diags, k),
        k >= 1,
    ensures
        diags_within(x86_64::x86_notes(s, k, f).diags, k),
{
    let a = if f.syscall { s.diags.push(x86_64::syscall_diag(k)) } else { s.diags };
    if f.syscall {
        lemma_within_push(s.diags, x86_64::syscall_diag(k), k);
    }
    let b = match f.mem_imm64 {
        Some(c) => a.push(x86_64::imm64_diag(k, crate::pattern::group(c, 2))),
        None => a,
    };
    match f.mem_imm64 {
        Some(c) => lemma_within_push(a, x86_64::imm64_diag(k, crate::pattern::group(c, 2)), k),
        None => {},
    }
    match f.mov_zero {
        Some(c) => lemma_within_push(b, x86_64::zero_idiom_diag(k, crate::pattern::group(c, 1)), k),
        None => {},
    }
}

proof fn lemma_cqo_within(s: X86State, k: int, f: X86Facts)
    requires
        diags_within(s.diags, k),
        k >= 1,
    ensures
        diags_within(x86_64::x86_cqo(s, k, f).diags, k),
{
    let a = x86_64::x86_cqo_track(s, k, f);
    match f.idiv_div_rdx {
        Some(c) => {
            let op = crate::text::unicode_uppercase(crate::pattern::group(c, 1));
            let reg = crate::text::unicode_lowercase(crate::pattern::group(c, 2));
            if reg == "rdx"@ && a.last_cqo_line is Some {
                lemma_within_push(a.diags, x86_64::cqo_diag(k, op, reg, "CQO"@, a.last_cqo_line->0), k);
            } else if reg == "edx"@ && a.last_cdq_line is Some {
                lemma_within_push(a.diags, x86_64::cqo_diag(k, op, reg, "CDQ"@, a.last_cdq_line->0), k);
            }
        },
        None => {},
    }
}

proof fn lemma_x86_pre_within(s: X86State, k: int, f: X86Facts)
    requires
        x86_scan_within(s, k - 1),
        k >= 1,
    ensures
        ({
            let s4 = x86_64::x86_guard(x86_64::x86_modified(x86_64::x86_stack(x86_64::x86_avx(s, f), f), f), f);
            &&& diags_within(s4.diags, k)
            &&& s4.had_imul ==> 1 <= s4.imul_line <= k
            &&& s4.had_idiv ==> 1 <= s4.idiv_line <= k
        }),
{
    lemma_within_grow(s.diags, k - 1, k);
}

proof fn lemma_x86_post_within(s8: X86State, k: int, f: X86Facts)
    requires
        diags_within(s8.diags, k),
        s8.had_imul ==> 1 <= s8.imul_line <= k,
        s8.had_idiv ==> 1 <= s8.idiv_line <= k,
        k >= 1,
    ensures
        x86_scan_within(x86_64::x86_flags(s8, k, f), k),
{
}

proof fn lemma_x86_mid_within(abi: CallingConvention, s4: X86State, k: int, t: Seq<char>, f: X86Facts)
    requires
        diags_within(s4.diags, k),
        s4.had_imul ==> 1 <= s4.imul_line <= k,
        s4.had_idiv ==> 1 <= s4.idiv_line <= k,
        k >= 1,
    ensures
        ({
            let s8 = x86_64::x86_cqo(x86_64::x86_notes(x86_64::x86_call(abi, x86_64::x86_movaps(s4, k, t, f), k, f), k, f), k, f);
            &&& diags_within(s8.diags, k)
            &&& s8.had_imul ==> 1 <= s8.imul_line <= k
            &&& s8.had_idiv ==> 1 <= s8.idiv_line <= k
        }),
{
    lemma_movaps_within(s4, k, t, f);
    let s5 = x86_64::x86_movaps(s4, k, t, f);
    lemma_call_within(abi, s5, k, f);
    let s6 = x86_64::x86_call(abi, s5, k, f);
    lemma_notes_within(s6, k, f);
    let s7 = x86_64::x86_notes(s6, k, f);
    lemma_cqo_within(s7, k, f);
}

proof fn lemma_x86_step_within(abi: CallingConvention, s: X86State, k: int, t: Seq<char>, f: X86Facts)
    requires
        x86_scan_within(s, k - 1),
        k >= 1,
    ensures
        x86_scan_within(x86_64::x86_step(abi, s, k, t, f), k),
{
    lemma_x86_pre_within(s, k, f);
    let s4 = x86_64::x86_guard(x86_64::x86_modified(x86_64::x86_stack(x86_64::x86_avx(s, f), f), f), f);
    lemma_x86_mid_within(abi, s4, k, t, f);
    let s8 = x86_64::x86_cqo(x86_64::x86_notes(x86_64::x86_call(abi, x86_64::x86_movaps(s4, k, t, f), k, f), k, f), k, f);
    lemma_x86_post_within(s8, k, f);
}

proof fn lemma_within_concat(a: Seq<Diag>, b: Seq<Diag>, n: int)
    requires
        diags_within(a, n),
        diags_within(b, n),
    ensures
        diags_within(a + b, n),
{
    assert forall|i: int| 0 <= i < (a + b).len() implies (#[trigger] (a + b)[i]).col == 1 && 1 <= (a + b)[i].line <= n by {
        if i < a.len() {
            assert((a + b)[i] == a[i]);
        } else {
            assert((a + b)[i] == b[i - a.len()]);
        }
    }
}

proof fn lemma_x86_scan_within(abi: CallingConvention, ls: Seq<Seq<char>>, k: int)
    requires
        0 <= k <= ls.len(),
    ensures
        x86_scan_within(x86_64::x86_scan(abi, ls, k), k),
    decreases k,
{
    if k > 0 {
        lemma_x86_scan_within(abi, ls, k - 1);
        let s = x86_64::x86_scan(abi, ls, k - 1);
        let t = x86_64::x86_clean(ls[k - 1]);
        if x86_64::x86_skipped(t) {
            lemma_within_grow(s.diags, k - 1, k);
        } else {
            lemma_x86_step_within(abi, s, k, t, x86_64::x86_facts(t));
        }
    }
}

proof fn lemma_xmm_within(xs: Seq<Seq<char>>, n: int)
    requires
        xs.len() > 0 ==> n >= 1,
    ensures
        diags_within(x86_64::xmm_diags(xs, n), n),
    decreases xs.len(),
{
    if xs.len() > 0 {
        lemma_xmm_within(xs.drop_last(), n);
        lemma_within_push(x86_64::xmm_diags(xs.drop_last(), n), x86_64::xmm_diag(n, xs.last()), n);
    }
}

proof fn lemma_x86_clobber_within(abi: CallingConvention, pu: Seq<Seq<char>>, po: Seq<Seq<char>>, md: Seq<Seq<char>>, regs: Seq<Seq<char>>, n: int)
    requires
        md.len() > 0 ==> n >= 1,
    ensures
        diags_within(x86_64::clobber_diags(abi, pu, po, md, regs, n), n),
    decreases regs.len(),
{
    if regs.len() > 0 {
        lemma_x86_clobber_within(abi, pu, po, md, regs.drop_last(), n);
        let r = regs.last();
        if md.contains(r) {
            lemma_within_push(
                x86_64::clobber_diags(abi, pu, po, md, regs.drop_last(), n),
                x86_64::clobber_diag(abi, n, r, pu.contains(r), po.contains(r)),
                n,
            );
        }
    }
}

proof fn lemma_x86_final_within(abi: CallingConvention, s: X86State, n: int)
    requires
        x86_scan_within(s, n),
    ensures
        diags_within(s.diags + x86_64::x86_final_diags(abi, s, n), n),
{
    let d1 = if s.had_imul && !s.checked_overflow { seq![x86_64::imul_diag(s.imul_line)] } else { Seq::<Diag>::empty() };
    let d2 = if s.had_idiv && !s.had_div_guard { seq![x86_64::idiv_diag(s.idiv_line)] } else { Seq::<Diag>::empty() };
    let d3 = if abi == CallingConvention::Windows_X64 { x86_64::xmm_diags(s.modified_xmm, n) } else { Seq::<Diag>::empty() };
    let d4 = x86_64::clobber_diags(abi, s.pushed, s.popped, s.modified, x86_64::x86_callee_saved(abi), n);
    let d5 = if s.used_avx && !s.has_vzeroupper { seq![x86_64::avx_diag(n)] } else { Seq::<Diag>::empty() };
    lemma_xmm_within(s.modified_xmm, n);
    lemma_x86_clobber_within(abi, s.pushed, s.popped, s.modified, x86_64::x86_callee_saved(abi), n);
    assert(diags_within(d1, n));
    assert(diags_within(d2, n));
    assert(diags_within(d3, n));
    assert(diags_within(d5, n));
    lemma_within_concat(s.diags, d1, n);
    lemma_within_concat(s.diags + d1, d2, n);
    lemma_within_concat(s.diags + d1 + d2, d3, n);
    lemma_within_concat(s.diags + d1 + d2 + d3, d4, n);
    lemma_within_concat(s.diags + d1 + d2 + d3 + d4, d5, n);
    assert(x86_64::x86_final_diags(abi, s, n) == d1 + d2 + d3 + d4 + d5);
    assert(s.diags + (d1 + d2 + d3 + d4 + d5) =~= s.diags + d1 + d2 + d3 + d4 + d5);
}

proof fn lemma_x86_lint_within(abi: CallingConvention, code: Seq<char>)
    ensures
        diags_within(x86_64::x86_lint(abi, code), crate::text::lines(code).len() as int),
{
    let ls = crate::text::lines(code);
    let n = ls.len() as int;
    lemma_x86_scan_within(abi, ls, n);
    lemma_x86_final_within(abi, x86_64::x86_scan(abi, ls, n), n);
}

/// What the AArch64 scan keeps true after `k` lines.
pub open spec fn arm_scan_within(s: arm64::ArmState, k: int) -> bool {
    &&& s.branch_link ==> 1 <= s.branch_link_line <= k
    &&& s.had_div ==> 1 <= s.div_line <= k
    &&& s.modified.len() > 0 ==> k >= 1
}

proof fn lemma_arm_scan_within(ls: Seq<Seq<char>>, k: int)
    requires
        0 <= k <= ls.len(),
    ensures
        arm_scan_within(arm64::arm_scan(ls, k), k),
    decreases k,
{
    if k > 0 {
        lemma_arm_scan_within(ls, k - 1);
    }
}

proof fn lemma_arm_clobber_within(s: arm64::ArmState, regs: Seq<Seq<char>>, n: int)
    requires
        s.modified.len() > 0 ==> n >= 1,
    ensures
        diags_within(arm64::arm_clobber_diags(s, regs, n), n),
    decreases regs.len(),
{
    if regs.len() > 0 {
        lemma_arm_clobber_within(s, regs.drop_last(), n);
        let r = regs.last();
        if s.modified.contains(r) {
            lemma_within_push(
                arm64::arm_clobber_diags(s, regs.drop_last(), n),
                arm64::arm_clobber_diag(n, r, s.saved.contains(r), s.restored.contains(r)),
                n,
            );
        }
    }
}

/// What the RISC-V scan keeps true after `k` lines.
pub open spec fn riscv_scan_within(s: riscv::RiscvState, k: int) -> bool {
    &&& s.has_call ==> 1 <= s.call_line <= k
    &&& s.had_div ==> 1 <= s.div_line <= k
    &&& s.modified.len() > 0 ==> k >= 1
}

proof fn lemma_riscv_scan_within(ls: Seq<Seq<char>>, k: int)
    requires
        0 <= k <= ls.len(),
    ensures
        riscv_scan_within(riscv::riscv_scan(ls, k), k),
    decreases k,
{
    if k > 0 {
        lemma_riscv_scan_within(ls, k - 1);
    }
}

proof fn lemma_riscv_clobber_within(s: riscv::RiscvState, regs: Seq<Seq<char>>, n: int)
    requires
        s.modified.len() > 0 ==> n >= 1,
    ensures
        diags_within(riscv::riscv_clobber_diags(s, regs, n), n),
    decreases regs.len(),
{
    if regs.len() > 0 {
        lemma_riscv_clobber_within(s, regs.drop_last(), n);
        let r = regs.last();
        if s.modified.contains(r) {
            lemma_within_push(
                riscv::riscv_clobber_diags(s, regs.drop_last(), n),
                riscv::riscv_clobber_diag(n, r, s.saved.contains(r), s.restored.contains(r)),
                n,
            );
        }
    }
}

/// Every diagnostic points at column 1 of a line of the text: its line
/// number is between 1 and the number of lines.
pub proof fn law_diagnostics_point_into_text(code: Seq<char>, arch: Arch, abi: Option<CallingConvention>)
    ensures
        diags_within(lint_spec(code, arch, abi), crate::text::lines(code).len() as int),
{
    let ls = crate::text::lines(code);
    let n = ls.len() as int;
    let conv = match abi {
        Some(a) => a,
        None => default_convention(arch),
    };
    lemma_x86_lint_within(conv, code);
    lemma_arm_scan_within(ls, n);
    let sa = arm64::arm_scan(ls, n);
    lemma_arm_clobber_within(sa, arm64::arm_callee_saved(), n);
    lemma_riscv_scan_within(ls, n);
    let sr = riscv::riscv_scan(ls, n);
    lemma_riscv_clobber_within(sr, riscv::riscv_callee_saved(), n);
    match arch {
        Arch::Arm64 => {
            let d1 = if sa.branch_link && !sa.frame_saved {
                seq![common::diag("ARM64_MISSING_FRAME_PAIR"@, crate::types::Severity::Error, sa.branch_link_line, arm64::ARM_MSG_FRAME@, arm64::ARM_EXPL_FRAME@, arm64::ARM_FIX_FRAME@)]
            } else {
                Seq::<Diag>::empty()
            };
            let d2 = if sa.had_div && !sa.zero_guard {
                seq![common::diag("ARM64_SILENT_DIVISION_BY_ZERO"@, crate::types::Severity::Warning, sa.div_line, arm64::ARM_MSG_DIV@, arm64::ARM_EXPL_DIV@, arm64::ARM_FIX_DIV@)]
            } else {
                Seq::<Diag>::empty()
            };
            assert(diags_within(d1, n));
            assert(diags_within(d2, n));
            lemma_within_concat(d1, d2, n);
            lemma_within_concat(d1 + d2, arm64::arm_clobber_diags(sa, arm64::arm_callee_saved(), n), n);
        },
        Arch::Riscv64 => {
            let d1 = if sr.has_call && !sr.ra_saved {
                seq![common::diag("RISCV_MISSING_RA_SAVE"@, crate::types::Severity::Error, sr.call_line, riscv::RV_MSG_RA@, riscv::RV_EXPL_RA@, riscv::RV_FIX_RA@)]
            } else {
                Seq::<Diag>::empty()
            };
            let d2 = if sr.had_div && !sr.zero_guard {
                seq![common::diag("RISCV_SILENT_DIVISION_BY_ZERO"@, crate::types::Severity::Warning, sr.div_line, riscv::RV_MSG_DIV@, riscv::RV_EXPL_DIV@, riscv::RV_FIX_DIV@)]
            } else {
                Seq::<Diag>::empty()
            };
            assert(diags_within(d1, n));
            assert(diags_within(d2, n));
            lemma_within_concat(d1, d2, n);
            lemma_within_concat(d1 + d2, riscv::riscv_clobber_diags(sr, riscv::riscv_callee_saved(), n), n);
        },
        _ => {},
    }
}

} // verus!
