//! Concrete instances of the library's laws.
use assemble::assembler::disassemble;
use assemble::emulator::StepTracer;
use assemble::fixer::AssemblyAutoFixer;
use assemble::safety::{SafetyGuardrails, SafetyRiskLevel};
use assemble::templates::{get_template, list_templates};
use assemble::testbench::harness::{run_verification, TestCase};
use assemble::types::{parse_arch, Arch, CallingConvention, CpuRegisters, Syntax};

#[test]
fn law_instance_register_read_after_write_and_frame() {
    let mut r = CpuRegisters::new_x86_64();
    r.set("r12", 0xDEAD_BEEF_0000_0001);
    assert_eq!(r.get("r12"), 0xDEAD_BEEF_0000_0001);
    r.set("ebx", 0xFFFF_FFFF_1234_5678);
    assert_eq!(r.get("rbx"), 0x1234_5678);
    assert_eq!(r.get("r12"), 0xDEAD_BEEF_0000_0001);
    assert_eq!(r.get("rsp"), 0x7fffffff0000);
}

#[test]
fn law_instance_memory_read_after_write() {
    // mov rax, 0x1122334455667788 ; push rax ; pop rcx ; ret
    let code = [
        0x48, 0xB8, 0x88, 0x77, 0x66, 0x55, 0x44, 0x33, 0x22, 0x11, 0x50, 0x59, 0xC3,
    ];
    let mut t = StepTracer::new();
    let steps = t.trace(&code, 0x1000).unwrap();
    let rcx = steps[2].reg_diffs.iter().find(|d| d.reg == "rcx").unwrap();
    assert_eq!(rcx.after, 0x1122334455667788);
}

#[test]
fn law_instance_trace_numbering() {
    let code = [0x90, 0x90, 0x90, 0xC3]; // nop x3 ; ret
    let mut t = StepTracer::new();
    let steps = t.trace(&code, 0x2000).unwrap();
    assert_eq!(steps.len(), 4);
    for (i, s) in steps.iter().enumerate() {
        assert_eq!(s.step, i + 1);
    }
    assert_eq!(steps[0].address, 0x2000);
    // a jump to itself runs until the step limit
    let spin = [0xEB, 0xFE];
    let mut t = StepTracer::new();
    let steps = t.trace(&spin, 0).unwrap();
    assert_eq!(steps.len(), 1000);
    assert_eq!(steps[999].step, 1000);
}

#[test]
fn law_instance_disassembly_covers_code() {
    let code = [0x48, 0x31, 0xC0, 0x90, 0x0F, 0xC3];
    let l = disassemble(&code, 0x10, Syntax::Intel);
    let joined: Vec<u8> = l.iter().flat_map(|d| d.bytes.clone()).collect();
    assert_eq!(joined, code.to_vec());
    assert!(l.iter().all(|d| !d.bytes.is_empty()));
    assert_eq!(l[0].ip, 0x10);
    for k in 0..l.len() - 1 {
        assert_eq!(l[k + 1].ip, l[k].ip + l[k].bytes.len() as u64);
    }
}

#[test]
fn law_instance_audit_report_consistent() {
    let g = SafetyGuardrails::new();
    let clean = g.audit("mov rax, 1\nret");
    assert!(clean.findings.is_empty());
    assert_eq!(clean.overall_risk, SafetyRiskLevel::Safe);
    assert!(clean.is_executable_safely);
    let bad = g.audit("nop\n  in al, dx\nret");
    assert_eq!(bad.overall_risk, SafetyRiskLevel::Dangerous);
    assert!(!bad.is_executable_safely);
    assert!(bad.findings.iter().all(|f| f.line >= 1 && f.line <= 3));
}

#[test]
fn law_instance_fix_reports_every_change() {
    let fixer = AssemblyAutoFixer::new(CallingConvention::SystemV_AMD64);
    let same = fixer.fix("  mov rax, 1\r\n  ret\n");
    assert_eq!(same.fixes_applied, 0);
    assert_eq!(same.fixed_code, "  mov rax, 1\n  ret");
    let changed = fixer.fix("g:\n  mov r12, 1\n  ret");
    assert_eq!(changed.fixes_applied, changed.changes_made.len());
    let lines: Vec<&str> = "g:\n  mov r12, 1\n  ret".lines().collect();
    assert!(changed.changes_made.iter().all(|e| lines.contains(&e.original_line.as_str())));
}

#[test]
fn law_instance_listed_templates_resolve() {
    for s in list_templates() {
        let t = get_template(s.name).unwrap();
        assert_eq!(t.name, s.name);
        assert_eq!(t.arch, Arch::X86_64);
    }
}

#[test]
fn law_instance_verification_counts() {
    let nop_ret = [0x90, 0xC3];
    let tests = vec![
        TestCase { name: "a".to_string(), initial_registers: vec![], expected_registers: vec![] },
        TestCase { name: "b".to_string(), initial_registers: vec![], expected_registers: vec![("rax".to_string(), 3)] },
    ];
    let rep = run_verification(&nop_ret, &tests).unwrap();
    assert_eq!(rep.passed_tests + rep.failed_tests, rep.total_tests);
    assert_eq!(rep.results[0].name, "a");
    assert_eq!(rep.results[1].passed, rep.results[1].mismatches.is_empty());
}

#[test]
fn law_instance_arch_name_round_trip() {
    for a in [Arch::X86_64, Arch::X86_32, Arch::Arm64, Arch::Arm32, Arch::Riscv64] {
        assert_eq!(parse_arch(&a.to_string()).unwrap(), a);
    }
}

#[test]
fn fix_does_not_realign_a_second_allocation() {
    // Repair keeps each existing `sub rsp` at the one size it computes, so a
    // second allocation before a later call stays misaligned.
    let code = "f:\n    sub rsp, 8\n    call g\n    sub rsp, 8\n    call h\n    add rsp, 16\n    ret";
    let fixed = AssemblyAutoFixer::new(CallingConvention::SystemV_AMD64).fix(code);
    assert_eq!(fixed.fixed_code, "f:\n    sub rsp, 8\n    call g\n    sub rsp, 8\n    call h\n    add rsp, 8\n    ret");
    let diags = assemble::linter::lint_assembly(&fixed.fixed_code, Arch::X86_64, Some(CallingConvention::SystemV_AMD64));
    assert!(diags.iter().any(|d| d.rule == "STACK_ALIGNMENT_VIOLATION"));
}

#[test]
fn fix_allocation_realigns_and_covers_shadow_space() {
    let win = assemble::fixer::AssemblyAutoFixer::new(assemble::types::CallingConvention::Windows_X64)
        .fix("f:\n    call g\n    ret");
    assert!(win.fixed_code.contains("    sub rsp, 40"));
    assert!(win.fixed_code.contains("    add rsp, 40"));
    let sysv = assemble::fixer::AssemblyAutoFixer::new(assemble::types::CallingConvention::SystemV_AMD64)
        .fix("f:\n    call g\n    ret");
    assert!(sysv.fixed_code.contains("    sub rsp, 8"));
    let leaf = assemble::fixer::AssemblyAutoFixer::new(assemble::types::CallingConvention::Windows_X64)
        .fix("f:\n    mov rax, 1\n    ret");
    assert!(!leaf.fixed_code.contains("sub rsp"));
}
