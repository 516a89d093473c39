use assemble::assembler::disassemble;
use assemble::assembler::nasm_backend::nasm_source;
use assemble::emulator::StepTracer;
use assemble::fixer::AssemblyAutoFixer;
use assemble::linter::lint_assembly;
use assemble::safety::{SafetyGuardrails, SafetyRiskLevel};
use assemble::templates::{get_template, list_templates};
use assemble::testbench::generator::{generate_c_harness, generate_python_ctypes_harness};
use assemble::testbench::harness::{run_verification, TestCase};
use assemble::types::{parse_arch, parse_calling_convention, parse_execution_mode, parse_syntax};
use assemble::types::{Arch, CallingConvention, CpuRegisters, ExecutionMode, Severity, Syntax};

// ---------------------------------------------------------------- linters

#[test]
fn lint_stack_alignment_message_reports_offset() {
    let diags = lint_assembly("push rbx\npush rbp\ncall f\n", Arch::X86_64, None);
    let d = diags.iter().find(|d| d.rule == "STACK_ALIGNMENT_VIOLATION").unwrap();
    assert_eq!(d.line, 3);
    assert_eq!(d.col, 1);
    assert_eq!(
        d.message,
        "Stack pointer (RSP) is not 16-byte aligned before 'call' (current offset mod 16 = 8)."
    );
    let aligned = lint_assembly("push rbx\ncall f\n", Arch::X86_64, None);
    assert!(!aligned.iter().any(|d| d.rule == "STACK_ALIGNMENT_VIOLATION"));
}

#[test]
fn lint_misaligned_at_entry_call() {
    let diags = lint_assembly("call f", Arch::X86_64, None);
    let d = diags.iter().find(|d| d.rule == "STACK_ALIGNMENT_VIOLATION").unwrap();
    assert!(d.message.ends_with("= 8)."));
    assert_eq!(d.severity, Severity::Error);
}

#[test]
fn lint_shadow_space_message_shows_allocation() {
    let diags = lint_assembly("sub rsp, 8\ncall f\n", Arch::X86_64, Some(CallingConvention::Windows_X64));
    let d = diags.iter().find(|d| d.rule == "WINDOWS_SHADOW_SPACE_MISSING").unwrap();
    assert_eq!(
        d.message,
        "Calling a function in Windows x64 ABI without allocating 32-byte shadow space (currently allocated: 8 bytes)."
    );
    let diags = lint_assembly("add rsp, 0x10\ncall f\n", Arch::X86_64, Some(CallingConvention::Windows_X64));
    let d = diags.iter().find(|d| d.rule == "WINDOWS_SHADOW_SPACE_MISSING").unwrap();
    assert!(d.message.contains("currently allocated: 0 bytes"));
}

#[test]
fn lint_zero_idiom_fix_text() {
    let diags = lint_assembly("mov r9, 0", Arch::X86_64, None);
    let d = diags.iter().find(|d| d.rule == "ZERO_LATENCY_IDIOM_SUGGESTION").unwrap();
    assert_eq!(d.fix_suggestion.as_deref(), Some("xor r9d, r9d"));
    assert_eq!(d.message, "'mov r9, 0' is inefficient. Prefer 'xor r9d, r9d' instead.");
}

#[test]
fn lint_cqo_clobbers_divisor() {
    let diags = lint_assembly("cqo\nidiv rdx\n", Arch::X86_64, None);
    let d = diags.iter().find(|d| d.rule == "CQO_CLOBBERS_DIVISOR_ERROR").unwrap();
    assert_eq!(d.line, 2);
    assert_eq!(
        d.message,
        "'IDIV rdx' divides by register 'RDX' which was clobbered by 'CQO' on line 1."
    );
    let diags = lint_assembly("cqo\nmov rdx, 3\nidiv rdx\n", Arch::X86_64, None);
    assert!(!diags.iter().any(|d| d.rule == "CQO_CLOBBERS_DIVISOR_ERROR"));
}

#[test]
fn lint_syscall_and_imm64_and_avx() {
    let code = "syscall\nmov qword [rax], 0x123456789\nvmovdqu ymm0, [rsi]\nret";
    let diags = lint_assembly(code, Arch::X86_64, None);
    assert!(diags.iter().any(|d| d.rule == "SYSCALL_REGISTER_CLOBBER_NOTICE" && d.severity == Severity::Info && d.line == 1));
    let imm = diags.iter().find(|d| d.rule == "INVALID_64BIT_IMM_MEM_WRITE").unwrap();
    assert!(imm.message.contains("'0x123456789'"));
    let avx = diags.iter().find(|d| d.rule == "AVX_SSE_TRANSITION_PENALTY").unwrap();
    assert_eq!(avx.line, 4);
    let clean = lint_assembly("vmovdqu ymm0, [rsi]\nvzeroupper\nret", Arch::X86_64, None);
    assert!(!clean.iter().any(|d| d.rule == "AVX_SSE_TRANSITION_PENALTY"));
}

#[test]
fn lint_windows_xmm_and_callee_saved_explanation() {
    let code = "movd xmm7, eax\nmov rsi, 1\nret";
    let diags = lint_assembly(code, Arch::X86_64, Some(CallingConvention::Windows_X64));
    let x = diags.iter().find(|d| d.rule == "CALLEE_SAVED_XMM_CLOBBERED").unwrap();
    assert!(x.message.contains("'XMM7'"));
    assert_eq!(x.line, 3);
    let c = diags.iter().find(|d| d.rule == "CALLEE_SAVED_REGISTER_CLOBBERED").unwrap();
    assert_eq!(
        c.message,
        "Callee-saved register 'rsi' was modified but not properly preserved (saved=false, restored=false)."
    );
    assert!(c.explanation.starts_with("According to Windows_X64,"));
    let sysv = lint_assembly(code, Arch::X86_64, Some(CallingConvention::SystemV_AMD64));
    assert!(!sysv.iter().any(|d| d.rule.starts_with("CALLEE_SAVED")));
}

#[test]
fn lint_imul_and_idiv_guards() {
    let diags = lint_assembly("imul rax, rbx\nidiv rcx", Arch::X86_64, None);
    let i = diags.iter().find(|d| d.rule == "UNCHECKED_ARITHMETIC_OVERFLOW").unwrap();
    assert_eq!(i.line, 1);
    assert_eq!(i.severity, Severity::Warning);
    assert!(diags.iter().any(|d| d.rule == "UNCHECKED_IDIV_OVERFLOW" && d.line == 2 && d.severity == Severity::Error));
    let guarded = lint_assembly("imul rax, rbx\njo bad\ntest rcx, rcx\nidiv rcx", Arch::X86_64, None);
    assert!(guarded.is_empty());
}

#[test]
fn lint_vector_alignment_hint() {
    let diags = lint_assembly("movdqa xmm0, [rdi]", Arch::X86_64, None);
    let d = diags.iter().find(|d| d.rule == "VECTOR_ALIGNMENT_FAULT_RISK").unwrap();
    assert_eq!(
        d.fix_suggestion.as_deref(),
        Some("Replace 'movdqa' with 'movdqu' if 16-byte alignment is not guaranteed.")
    );
}

#[test]
fn lint_comments_and_labels_are_skipped() {
    let diags = lint_assembly("; call f\nlabel:\n# call g\n// call h\n", Arch::X86_64, None);
    assert!(diags.is_empty());
}

#[test]
fn lint_empty_and_other_architectures() {
    assert!(lint_assembly("", Arch::X86_64, None).is_empty());
    assert!(lint_assembly("", Arch::Arm64, None).is_empty());
    assert!(lint_assembly("", Arch::Riscv64, None).is_empty());
    assert!(lint_assembly("call f\nmov rbx, 1", Arch::X86_32, None).is_empty());
    assert!(lint_assembly("bl f", Arch::Arm32, None).is_empty());
}

#[test]
fn lint_arm64_details() {
    let diags = lint_assembly("mov w19, #1\nstp x29, x30, [sp, #-16]!\nbl f\nret", Arch::Arm64, None);
    assert!(!diags.iter().any(|d| d.rule == "ARM64_MISSING_FRAME_PAIR"));
    let c = diags.iter().find(|d| d.rule == "CALLEE_SAVED_REGISTER_CLOBBERED").unwrap();
    assert_eq!(
        c.message,
        "ARM64 callee-saved register 'x19' was modified but not preserved (saved=false, restored=false)."
    );
    assert_eq!(c.line, 4);
    let guarded = lint_assembly("cmp x1, #0\nsdiv x2, x0, x1", Arch::Arm64, None);
    assert!(!guarded.iter().any(|d| d.rule == "ARM64_SILENT_DIVISION_BY_ZERO"));
}

#[test]
fn lint_riscv_details() {
    let diags = lint_assembly("sd ra, 8(sp)\ncall f\nli x8, 1\nret", Arch::Riscv64, None);
    assert!(!diags.iter().any(|d| d.rule == "RISCV_MISSING_RA_SAVE"));
    let c = diags.iter().find(|d| d.rule == "CALLEE_SAVED_REGISTER_CLOBBERED").unwrap();
    assert!(c.message.contains("'s0'"));
    assert_eq!(
        c.fix_suggestion.as_deref(),
        Some("Save 's0' to stack in prologue with 'sd s0, offset(sp)' and restore before ret.")
    );
}

// ---------------------------------------------------------------- safety

#[test]
fn audit_nop_sled_reported_once_at_fourth() {
    let report = SafetyGuardrails::new().audit("nop\nnop\nnop\nnop\nnop\nret");
    let sleds: Vec<_> = report.findings.iter().filter(|f| f.category == "NOP_SLED_DETECTED").collect();
    assert_eq!(sleds.len(), 1);
    assert_eq!(sleds[0].line, 4);
    assert_eq!(report.overall_risk, SafetyRiskLevel::HighRisk);
    assert!(!report.is_executable_safely);
}

#[test]
fn audit_getpc_stub() {
    let report = SafetyGuardrails::new().audit("call $+5\npop rbx");
    let f = report.findings.iter().find(|f| f.category == "POSITION_INDEPENDENT_GETPC_STUB").unwrap();
    assert_eq!(f.line, 2);
    assert_eq!(f.mitigation, "Replace with RIP-relative address loading: 'lea rbx, [rip + target_label]'.");
    assert_eq!(report.overall_risk, SafetyRiskLevel::HighRisk);
    assert!(!report.is_executable_safely);
}

#[test]
fn audit_large_stack_allocation() {
    let report = SafetyGuardrails::new().audit("sub rsp, 0x2000");
    let f = report.findings.iter().find(|f| f.category == "UNPROBED_LARGE_STACK_ALLOCATION").unwrap();
    assert!(f.description.starts_with("Stack allocation of 8192 bytes exceeds page size"));
    assert_eq!(f.risk_level, SafetyRiskLevel::HighRisk);
    assert!(!report.is_executable_safely);
    let small = SafetyGuardrails::new().audit("sub rsp, 4095");
    assert!(small.findings.is_empty());
    assert_eq!(small.summary, "SAFE: Code conforms to safety guardrails. No hostile or privileged instructions found.");
}

#[test]
fn audit_division_guards() {
    let g = SafetyGuardrails::new();
    let bare = g.audit("div rcx");
    let f = bare.findings.iter().find(|f| f.category == "UNCHECKED_DIVISION_HAZARD").unwrap();
    assert_eq!(f.mitigation, "Validate divisor: 'test rcx, rcx; jz handle_zero_error' before executing division.");
    assert!(g.audit("test rcx, rcx\njz z\ndiv rcx").findings.is_empty());
    assert!(g.audit("mov rcx, 10\n; comment\ndiv rcx").findings.is_empty());
    assert!(!g.audit("mov rcx, 0\ndiv rcx").findings.is_empty());
    assert!(g.audit("cmp rcx,0\ndiv rcx").findings.is_empty());
}

#[test]
fn audit_privileged_instruction_text() {
    let report = SafetyGuardrails::new().audit("  wrmsr  ");
    let f = &report.findings[0];
    assert_eq!(f.instruction, "wrmsr");
    assert!(f.description.starts_with("'WRMSR' is a privileged Ring 0 instruction."));
    assert_eq!(report.summary, "CRITICAL: Assembly contains privileged or crash-inducing instructions. Blocked from execution.");
}

// ---------------------------------------------------------------- fixer

#[test]
fn fix_exact_output_systemv() {
    let fixer = AssemblyAutoFixer::new(CallingConvention::SystemV_AMD64);
    let report = fixer.fix("f:\n    mov rbx, 1\n    call g\n    ret");
    assert_eq!(
        report.fixed_code,
        "f:\n    push rbx\n    mov rbx, 1\n    call g\n    pop rbx\n    ret"
    );
    assert_eq!(report.fixes_applied, 2);
    assert_eq!(report.changes_made[0].rule, "CALLEE_SAVED_AUTO_PRESERVE");
    assert_eq!(report.original_code, "f:\n    mov rbx, 1\n    call g\n    ret");
    let aligned = fixer.fix("f:\n    call g\n    ret");
    assert_eq!(aligned.fixed_code, "f:\n    sub rsp, 8\n    call g\n    add rsp, 8\n    ret");
    assert_eq!(aligned.changes_made[0].rule, "STACK_ALIGNMENT_AUTO_ALLOCATE");
}

#[test]
fn fix_zero_idiom_and_imm64_split() {
    let fixer = AssemblyAutoFixer::new(CallingConvention::SystemV_AMD64);
    let report = fixer.fix("  mov rax, 0 ; clear\n  mov qword [rdi], 0x1122334455");
    assert_eq!(report.fixed_code, "  xor eax, eax ; clear\n  mov r11, 0x1122334455\n  mov qword [rdi], r11");
    assert_eq!(report.changes_made[1].fixed_line, "  mov r11, 0x1122334455\n  mov qword [rdi], r11");
}

#[test]
fn fix_windows_adjusts_existing_allocation() {
    let fixer = AssemblyAutoFixer::new(CallingConvention::Windows_X64);
    let report = fixer.fix("sub rsp, 8\ncall f\nadd rsp, 8\nret");
    assert_eq!(report.fixed_code, "sub rsp, 40\ncall f\nadd rsp, 40\nret");
    assert_eq!(report.fixes_applied, 2);
}

#[test]
fn fix_clean_code_is_unchanged() {
    let fixer = AssemblyAutoFixer::new(CallingConvention::SystemV_AMD64);
    let report = fixer.fix("ret");
    assert_eq!(report.fixed_code, "ret");
    assert_eq!(report.fixes_applied, 0);
}

// ---------------------------------------------------------------- registers

#[test]
fn registers_initial_values_and_aliases() {
    let mut r = CpuRegisters::new_x86_64();
    assert_eq!(r.get("rsp"), 0x7fffffff0000);
    assert_eq!(r.get("RBP"), 0x7fffffff0000);
    assert_eq!(r.get("rax"), 0);
    assert_eq!(r.get("xmm0"), 0);
    r.set("EAX", 0x1_2345_6789);
    assert_eq!(r.get("rax"), 0x2345_6789);
    r.set("r8d", u64::MAX);
    assert_eq!(r.get("r8"), 0xFFFF_FFFF);
    r.set("Foo", 7);
    assert_eq!(r.get("foo"), 7);
    r.set("rcx", 9);
    assert_eq!(r.get("rcx"), 9);
    assert_eq!(r.get("rdx"), 0);
}

// ---------------------------------------------------------------- tracer

const PROGRAM_ARITH: [u8; 16] = [
    0x48, 0xC7, 0xC0, 0x0A, 0x00, 0x00, 0x00, // mov rax, 10
    0x48, 0x83, 0xC0, 0x14, // add rax, 20
    0x48, 0x83, 0xE8, 0x05, // sub rax, 5
    0xC3, // ret
];

#[test]
fn trace_arithmetic_steps() {
    let mut t = StepTracer::new();
    let steps = t.trace(&PROGRAM_ARITH, 0x400000).unwrap();
    assert_eq!(steps.len(), 4);
    assert_eq!(steps[0].step, 1);
    assert_eq!(steps[0].address, 0x400000);
    assert_eq!(steps[0].bytes, "48 c7 c0 0a 00 00 00");
    assert!(steps[0].instruction.starts_with("mov"));
    assert_eq!(steps[0].reg_diffs.len(), 1);
    assert_eq!(steps[0].reg_diffs[0].reg, "rax");
    assert_eq!(steps[0].reg_diffs[0].after, 10);
    assert_eq!(steps[1].reg_diffs[0].after, 30);
    assert_eq!(steps[2].reg_diffs[0].after, 25);
    assert_eq!(steps[3].address, 0x40000F);
    assert!(steps[3].instruction.starts_with("ret"));
}

#[test]
fn trace_flags_and_carry_chain() {
    let code = [
        0x48, 0x31, 0xC0, // xor rax, rax
        0xF9, // stc
        0x48, 0x83, 0xD0, 0x05, // adc rax, 5
        0xF8, // clc
        0x48, 0xC7, 0xC3, 0x14, 0x00, 0x00, 0x00, // mov rbx, 20
        0x48, 0x83, 0xDB, 0x05, // sbb rbx, 5
        0xF5, // cmc
        0xC3,
    ];
    let mut t = StepTracer::new();
    let steps = t.trace(&code, 0x1000).unwrap();
    let zf = steps[0].flag_diffs.iter().find(|f| f.flag == "ZF").unwrap();
    assert!(zf.after);
    assert!(steps[1].flag_diffs.iter().any(|f| f.flag == "CF" && f.after));
    assert_eq!(steps[2].reg_diffs[0].after, 6);
    assert_eq!(steps[5].reg_diffs[0].after, 15);
    assert!(steps[6].flag_diffs.iter().any(|f| f.flag == "CF" && f.after));
}

#[test]
fn trace_xchg_lea_bswap_push_pop() {
    let code = [
        0x48, 0xC7, 0xC0, 0x10, 0x00, 0x00, 0x00, // mov rax, 0x10
        0x48, 0xC7, 0xC3, 0x20, 0x00, 0x00, 0x00, // mov rbx, 0x20
        0x48, 0x93, // xchg rbx, rax
        0x48, 0x8D, 0x50, 0x08, // lea rdx, [rax+8]
        0x48, 0xB8, 0x88, 0x77, 0x66, 0x55, 0x44, 0x33, 0x22, 0x11, // mov rax, 0x1122334455667788
        0x48, 0x0F, 0xC8, // bswap rax
        0x50, // push rax
        0x5B, // pop rbx
        0xC3,
    ];
    let mut t = StepTracer::new();
    let steps = t.trace(&code, 0x400000).unwrap();
    let x = &steps[2];
    assert_eq!(x.reg_diffs.iter().find(|d| d.reg == "rax").unwrap().after, 0x20);
    assert_eq!(x.reg_diffs.iter().find(|d| d.reg == "rbx").unwrap().after, 0x10);
    assert_eq!(steps[3].reg_diffs[0].after, 0x28);
    assert_eq!(steps[5].reg_diffs[0].after, 0x8877665544332211);
    assert_eq!(steps[6].memory_writes, vec!["Stack [0x7ffffffefff8] = 0x8877665544332211".to_string()]);
    let rbx = steps[7].reg_diffs.iter().find(|d| d.reg == "rbx").unwrap();
    assert_eq!(rbx.after, 0x8877665544332211);
}

#[test]
fn trace_division_by_zero_faults() {
    let code = [0x48, 0xF7, 0xF1, 0xC3]; // div rcx
    let mut t = StepTracer::new();
    assert_eq!(t.trace(&code, 0).unwrap_err(), "Divide by Zero Exception (#DE) in DIV");
    let idiv = [0x48, 0xF7, 0xF9, 0xC3]; // idiv rcx
    let mut t = StepTracer::new();
    assert_eq!(t.trace(&idiv, 0).unwrap_err(), "Divide by Zero Exception (#DE) in IDIV");
}

#[test]
fn trace_signed_division_truncates() {
    let code = [
        0x48, 0xC7, 0xC0, 0xF9, 0xFF, 0xFF, 0xFF, // mov rax, -7
        0x48, 0x99, // cqo
        0x48, 0xC7, 0xC1, 0x04, 0x00, 0x00, 0x00, // mov rcx, 4
        0x48, 0xF7, 0xF9, // idiv rcx
        0xC3,
    ];
    let mut t = StepTracer::new();
    let steps = t.trace(&code, 0).unwrap();
    let q = steps[3].reg_diffs.iter().find(|d| d.reg == "rax").unwrap();
    assert_eq!(q.after as i64, -1);
    let r = steps[3].reg_diffs.iter().find(|d| d.reg == "rdx").unwrap();
    assert_eq!(r.after as i64, -3);
}

#[test]
fn trace_initial_register_and_end_of_code() {
    let code = [0x48, 0x83, 0xC0, 0x14]; // add rax, 20
    let mut t = StepTracer::new();
    t.set_initial_register("RAX", 5);
    let steps = t.trace(&code, 0x400000).unwrap();
    assert_eq!(steps.len(), 1);
    assert_eq!(steps[0].reg_diffs[0].before, 5);
    assert_eq!(steps[0].reg_diffs[0].after, 25);
}

// ---------------------------------------------------------------- disassembler

#[test]
fn disassemble_listing() {
    let code = [0x48, 0xC7, 0xC0, 0x2A, 0x00, 0x00, 0x00, 0xC3];
    let l = disassemble(&code, 0x400000, Syntax::Intel);
    assert_eq!(l.len(), 2);
    assert_eq!(l[0].mnemonic, "mov");
    assert_eq!(l[0].ip, 0x400000);
    assert_eq!(l[0].bytes, vec![0x48, 0xC7, 0xC0, 0x2A, 0x00, 0x00, 0x00]);
    assert_eq!(l[0].op_count, 2);
    assert_eq!(l[1].mnemonic, "ret");
    assert_eq!(l[1].ip, 0x400007);
    assert!(l[1].is_ret);
    assert!(!l[0].is_ret && !l[0].is_call && !l[0].is_branch);
    let att = disassemble(&code, 0, Syntax::Att);
    assert!(att[0].text.contains("%rax"));
    assert!(disassemble(&[], 0, Syntax::Nasm).is_empty());
}

// ---------------------------------------------------------------- templates, harness

#[test]
fn templates_by_alias_and_list() {
    let t = get_template("UART").unwrap();
    assert_eq!(t.name, "baremetal-uart");
    assert_eq!(t.arch, Arch::X86_64);
    assert!(t.code.contains("COM1_BASE 0x3F8"));
    assert_eq!(get_template("mutex").unwrap().name, "spinlock");
    assert!(get_template("nothing").is_none());
    let l = list_templates();
    assert_eq!(l.len(), 5);
    assert_eq!(l[4].name, "standalone-cli");
    assert_eq!(l[3].category, "Cryptography / Math");
}

#[test]
fn c_harness_exact_text() {
    let s = generate_c_harness("add2", "uint64_t", &["uint64_t", "uint64_t"], &[&["1", "2"]]);
    assert_eq!(
        s,
        "#include <stdio.h>\n#include <stdint.h>\n#include <assert.h>\n\nextern uint64_t add2(uint64_t, uint64_t);\n\nint main(void) {\n    printf(\"Running tests for assembly function 'add2'...\\n\");\n\n    // Test case 1\n    uint64_t res1 = add2(1, 2);\n    printf(\"Test 1 result: %lu\\n\", (uint64_t)res1);\n\n    printf(\"All tests completed successfully!\\n\");\n    return 0;\n}\n"
    );
}

#[test]
fn python_harness_names_library_and_function() {
    let s = generate_python_ctypes_harness("libf.so", "fast_add");
    assert!(s.starts_with("import ctypes\n"));
    assert!(s.contains("os.path.abspath(\"libf.so\")"));
    assert!(s.contains("getattr(asm_lib, \"fast_add\")"));
    assert!(s.contains("print(f\"Calling assembly function 'fast_add'...\")"));
    assert!(s.contains("print(f\"Result: {res}\")"));
}

#[test]
fn verification_reads_last_step() {
    let add = [0x48, 0x83, 0xC0, 0x14]; // add rax, 20
    let tests = vec![
        TestCase {
            name: "adds".to_string(),
            initial_registers: vec![("rax".to_string(), 5)],
            expected_registers: vec![("RAX".to_string(), 25)],
        },
        TestCase {
            name: "wrong".to_string(),
            initial_registers: vec![],
            expected_registers: vec![("rax".to_string(), 1)],
        },
    ];
    let report = run_verification(&add, &tests).unwrap();
    assert_eq!(report.total_tests, 2);
    assert_eq!(report.passed_tests, 1);
    assert_eq!(report.failed_tests, 1);
    assert!(report.results[0].passed);
    assert_eq!(report.results[0].steps_executed, 1);
    assert_eq!(report.results[1].mismatches, vec!["Register 'rax' expected 0x1 (1), got 0x14 (20)".to_string()]);
    let fault = run_verification(&[0x48, 0xF7, 0xF1], &tests);
    assert_eq!(fault.unwrap_err(), "Divide by Zero Exception (#DE) in DIV");
}

#[test]
fn nasm_source_prefix() {
    assert_eq!(nasm_source("\u{feff}mov rax, 1"), "[BITS 64]\nmov rax, 1");
    assert_eq!(nasm_source("BITS 32\nnop"), "BITS 32\nnop");
}

// ---------------------------------------------------------------- vocabulary

#[test]
fn parse_names() {
    assert_eq!(parse_arch("AMD64").unwrap(), Arch::X86_64);
    assert_eq!(parse_arch("sparc").unwrap_err(), "Unsupported architecture: sparc");
    assert_eq!(parse_syntax("AT&T").unwrap(), Syntax::Att);
    assert_eq!(parse_execution_mode("driver").unwrap(), ExecutionMode::Kernel);
    assert_eq!(parse_calling_convention("msvc").unwrap(), CallingConvention::Windows_X64);
    assert!(parse_calling_convention("x").unwrap_err().starts_with("Unknown calling convention"));
    assert_eq!("riscv".parse::<Arch>().unwrap(), Arch::Riscv64);
    assert_eq!(Arch::Arm64.to_string(), "arm64");
    assert_eq!(Severity::Warning.to_string(), "WARNING");
}

// ---------------------------------------------------------------- documented rules

#[test]
fn lint_imul_without_check_is_a_warning() {
    let diags = lint_assembly("imul rax, rbx\nret", Arch::X86_64, Some(CallingConvention::SystemV_AMD64));
    assert!(diags.iter().any(|d| d.rule == "UNCHECKED_ARITHMETIC_OVERFLOW" && d.severity == Severity::Warning && d.line == 1));
}

#[test]
fn lint_unguarded_idiv_is_an_error() {
    let diags = lint_assembly("mov rax, 100\ncqo\nidiv rcx\nret", Arch::X86_64, Some(CallingConvention::SystemV_AMD64));
    assert!(diags.iter().any(|d| d.rule == "UNCHECKED_IDIV_OVERFLOW" && d.severity == Severity::Error && d.line == 3));
}

#[test]
fn lint_windows_movaps_into_xmm6_is_a_warning() {
    let diags = lint_assembly("movaps xmm6, xmm0\nret", Arch::X86_64, Some(CallingConvention::Windows_X64));
    let x = diags.iter().find(|d| d.rule == "CALLEE_SAVED_XMM_CLOBBERED").unwrap();
    assert_eq!(x.severity, Severity::Warning);
    assert!(x.message.contains("'XMM6'"));
    let sysv = lint_assembly("movaps xmm6, xmm0\nret", Arch::X86_64, Some(CallingConvention::SystemV_AMD64));
    assert!(!sysv.iter().any(|d| d.rule == "CALLEE_SAVED_XMM_CLOBBERED"));
}

#[test]
fn lint_avx_without_vzeroupper_is_transition_penalty() {
    let diags = lint_assembly("vaddps ymm0, ymm1, ymm2\nret", Arch::X86_64, Some(CallingConvention::SystemV_AMD64));
    assert!(diags.iter().any(|d| d.rule == "AVX_SSE_TRANSITION_PENALTY" && d.severity == Severity::Warning && d.line == 2));
}

#[test]
fn lint_cqo_and_cdq_are_destructive_sign_extensions() {
    let diags = lint_assembly("cqo\nret", Arch::X86_64, Some(CallingConvention::SystemV_AMD64));
    assert!(diags.iter().any(|d| d.rule == "DESTRUCTIVE_SIGN_EXTENSION" && d.severity == Severity::Warning && d.line == 1));
    let diags = lint_assembly("mov eax, 7\ncdq\nret", Arch::X86_64, None);
    assert!(diags.iter().any(|d| d.rule == "DESTRUCTIVE_SIGN_EXTENSION" && d.severity == Severity::Warning && d.line == 2));
    let none = lint_assembly("mov rax, 1\nret", Arch::X86_64, None);
    assert!(!none.iter().any(|d| d.rule == "DESTRUCTIVE_SIGN_EXTENSION"));
}

#[test]
fn lint_upper_case_zeroing_suggests_32bit_register() {
    let diags = lint_assembly("MOV RAX, 0\nret", Arch::X86_64, None);
    let d = diags.iter().find(|d| d.rule == "ZERO_LATENCY_IDIOM_SUGGESTION").unwrap();
    assert_eq!(d.fix_suggestion.as_deref(), Some("xor eax, eax"));
}

#[test]
fn fix_upper_case_zeroing_uses_32bit_register() {
    let report = AssemblyAutoFixer::new(CallingConvention::SystemV_AMD64).fix("MOV RAX, 0");
    assert_eq!(report.fixed_code.to_lowercase(), "xor eax, eax");
}

#[test]
fn audit_stack_probe_threshold_is_above_one_page() {
    let g = SafetyGuardrails::new();
    let a = g.audit("sub rsp, 4096\nret");
    assert!(!a.findings.iter().any(|f| f.category == "UNPROBED_LARGE_STACK_ALLOCATION"));
    let b = g.audit("sub rsp, 4097\nret");
    assert_eq!(b.findings.iter().filter(|f| f.category == "UNPROBED_LARGE_STACK_ALLOCATION").count(), 1);
    assert_eq!(b.overall_risk, SafetyRiskLevel::HighRisk);
    assert!(!b.is_executable_safely);
}

#[test]
fn audit_caution_still_runs() {
    let r = SafetyGuardrails::new().audit("div rcx\nret");
    assert_eq!(r.overall_risk, SafetyRiskLevel::Caution);
    assert!(r.is_executable_safely);
}

#[test]
fn templates_found_in_any_case() {
    let t = get_template("UART").unwrap();
    assert_eq!(t.name, "baremetal-uart");
    for s in list_templates() {
        let t = get_template(&s.name.to_uppercase()).unwrap();
        assert_eq!(t.name, s.name);
        assert_eq!(t.arch, Arch::X86_64);
        assert_eq!(s.arch, "x86_64");
        assert!(!t.code.is_empty());
    }
}

#[test]
fn registers_read_in_any_case() {
    let mut c = CpuRegisters::new_x86_64();
    c.set("RBX", 77);
    assert_eq!(c.get("rbx"), 77);
    assert_eq!(c.get("Rbx"), 77);
    c.set("r12", 5);
    assert_eq!(c.get("R12"), 5);
    assert_eq!(CpuRegisters::new_x86_64().get("xmm0"), 0);
}

#[test]
fn audit_kernel_mode_permits_ring0_and_flags_driver_hazards() {
    let g = SafetyGuardrails::new();
    let code = "cli\nout dx, al\nsti\nret";
    let user = g.audit_with_mode(code, ExecutionMode::User);
    assert_eq!(user.overall_risk, SafetyRiskLevel::Dangerous);
    let kernel = g.audit_with_mode(code, ExecutionMode::Kernel);
    assert!(kernel.findings.is_empty());
    assert_eq!(kernel.overall_risk, SafetyRiskLevel::Safe);
    assert!(kernel.is_executable_safely);

    let leak = g.audit_with_mode("cli\nmov rax, 1\nret", ExecutionMode::Kernel);
    let f = leak.findings.iter().find(|f| f.category == "CLI_WITHOUT_STI").unwrap();
    assert_eq!(f.line, 3);
    assert_eq!(f.risk_level, SafetyRiskLevel::HighRisk);
    assert!(!leak.is_executable_safely);
    assert!(g.audit_with_mode("cli\npopfq\nret", ExecutionMode::BareMetal).findings.is_empty());

    let spin = g.audit_with_mode("spin:\ncmp byte [rdi], 0\njne spin\nret", ExecutionMode::Kernel);
    let f = spin.findings.iter().find(|f| f.category == "SPINLOCK_WITHOUT_PAUSE").unwrap();
    assert_eq!(f.line, 3);
    assert_eq!(spin.overall_risk, SafetyRiskLevel::Caution);
    let paused = g.audit_with_mode("spin:\npause\ncmp byte [rdi], 0\njne spin\nret", ExecutionMode::Kernel);
    assert!(paused.findings.is_empty());

    let sled = g.audit_with_mode("nop\nnop\nnop\nnop\nret", ExecutionMode::Kernel);
    assert!(!sled.is_executable_safely);
    assert_eq!(g.audit_with_mode("wrmsr\nret", ExecutionMode::User).summary, g.audit("wrmsr\nret").summary);
}
