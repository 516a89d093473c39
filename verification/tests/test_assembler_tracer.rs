//! The programs of these tests are given as the machine code that NASM
//! (`-f bin`, 64-bit) produces for the assembly text shown beside them.
use assemble::assembler::disassemble;
use assemble::emulator::StepTracer;
use assemble::types::Syntax;

#[test]
fn test_assemble_and_disassemble_roundtrip() {
    // mov rax, 0x2a ; ret
    let bytes: Vec<u8> = vec![0xB8, 0x2A, 0x00, 0x00, 0x00, 0xC3];
    assert!(!bytes.is_empty());

    let instrs = disassemble(&bytes, 0x400000, Syntax::Intel);
    assert_eq!(instrs.len(), 2);
    assert_eq!(instrs[0].mnemonic, "mov");
    assert_eq!(instrs[1].mnemonic, "ret");
    assert!(instrs[1].is_ret);
}

#[test]
fn test_tracer_arithmetic_execution() {
    let bytes: Vec<u8> = vec![
        0xB8, 0x0A, 0x00, 0x00, 0x00, // mov rax, 10
        0x48, 0x83, 0xC0, 0x14, // add rax, 20
        0x48, 0x83, 0xE8, 0x05, // sub rax, 5
        0xC3, // ret
    ];
    let mut tracer = StepTracer::new();
    let steps = tracer.trace(&bytes, 0x400000).expect("Trace failed");

    assert!(!steps.is_empty());
    assert_eq!(steps[0].reg_diffs[0].after, 10);
    assert_eq!(steps[1].reg_diffs[0].after, 30);
    assert_eq!(steps[2].reg_diffs[0].after, 25);
}

#[test]
fn test_tracer_flags_mutation() {
    let bytes: Vec<u8> = vec![
        0x48, 0x31, 0xC0, // xor rax, rax
        0xC3, // ret
    ];
    let mut tracer = StepTracer::new();
    let steps = tracer.trace(&bytes, 0x400000).expect("Trace failed");

    let zf_diff = steps[0].flag_diffs.iter().find(|f| f.flag == "ZF");
    assert!(zf_diff.is_some());
    assert_eq!(zf_diff.unwrap().after, true);
}

#[test]
fn test_tracer_adc_sbb_carry_chain() {
    let bytes: Vec<u8> = vec![
        0xF9, // stc
        0xB8, 0x0A, 0x00, 0x00, 0x00, // mov rax, 10
        0x48, 0x83, 0xD0, 0x05, // adc rax, 5
        0xF8, // clc
        0xBB, 0x14, 0x00, 0x00, 0x00, // mov rbx, 20
        0x48, 0x83, 0xDB, 0x05, // sbb rbx, 5
        0xC3, // ret
    ];
    let mut tracer = StepTracer::new();
    let steps = tracer.trace(&bytes, 0x400000).expect("Trace failed");

    let adc_step = steps.iter().find(|s| s.instruction.starts_with("adc")).expect("adc step found");
    assert_eq!(adc_step.reg_diffs[0].after, 16);

    let sbb_step = steps.iter().find(|s| s.instruction.starts_with("sbb")).expect("sbb step found");
    assert_eq!(sbb_step.reg_diffs[0].after, 15);
}

#[test]
fn test_tracer_lea_and_xchg() {
    let bytes: Vec<u8> = vec![
        0xB8, 0x10, 0x00, 0x00, 0x00, // mov rax, 0x10
        0xBB, 0x20, 0x00, 0x00, 0x00, // mov rbx, 0x20
        0x48, 0x93, // xchg rax, rbx
        0x48, 0x8D, 0x50, 0x08, // lea rdx, [rax + 0x8]
        0xC3, // ret
    ];
    let mut tracer = StepTracer::new();
    let steps = tracer.trace(&bytes, 0x400000).expect("Trace failed");

    let xchg_step = steps.iter().find(|s| s.instruction.starts_with("xchg")).expect("xchg step found");
    let rax_diff = xchg_step.reg_diffs.iter().find(|d| d.reg == "rax").unwrap();
    let rbx_diff = xchg_step.reg_diffs.iter().find(|d| d.reg == "rbx").unwrap();
    assert_eq!(rax_diff.after, 0x20);
    assert_eq!(rbx_diff.after, 0x10);

    let lea_step = steps.iter().find(|s| s.instruction.starts_with("lea")).expect("lea step found");
    assert_eq!(lea_step.reg_diffs[0].after, 0x28);
}

#[test]
fn test_tracer_bswap_and_flags() {
    let bytes: Vec<u8> = vec![
        0x48, 0xB8, 0x88, 0x77, 0x66, 0x55, 0x44, 0x33, 0x22, 0x11, // mov rax, 0x1122334455667788
        0x48, 0x0F, 0xC8, // bswap rax
        0xF9, // stc
        0xF5, // cmc
        0xC3, // ret
    ];
    let mut tracer = StepTracer::new();
    let steps = tracer.trace(&bytes, 0x400000).expect("Trace failed");

    let bswap_step = steps.iter().find(|s| s.instruction.starts_with("bswap")).expect("bswap step found");
    assert_eq!(bswap_step.reg_diffs[0].after, 0x8877665544332211);

    let stc_step = steps.iter().find(|s| s.instruction.starts_with("stc")).expect("stc step found");
    assert_eq!(stc_step.flag_diffs.iter().find(|f| f.flag == "CF").unwrap().after, true);

    let cmc_step = steps.iter().find(|s| s.instruction.starts_with("cmc")).expect("cmc step found");
    assert_eq!(cmc_step.flag_diffs.iter().find(|f| f.flag == "CF").unwrap().after, false);
}
