use assemble::linter::x86_64::{x86_scan_line, x86_scan_start, X86LineFacts};
use assemble::types::CallingConvention;

fn no_facts(lower: &str) -> X86LineFacts {
    X86LineFacts {
        lower: lower.chars().collect(),
        push: None,
        pop: None,
        sub_rsp: None,
        add_rsp: None,
        call: false,
        syscall: false,
        mov_zero: None,
        mem_imm64: None,
        dst_reg: None,
        string_insn: None,
        idiv_div_rdx: None,
        idiv_any: false,
        write_rdx: false,
        imul: false,
        check_overflow: false,
        cmp_zero: false,
        test_self: None,
        movaps: None,
        dst_xmm: None,
    }
}

#[test]
fn x86_line_with_given_recogniser_results() {
    let t: Vec<char> = "call f".chars().collect();
    let mut f = no_facts("call f");
    f.call = true;
    let mut st = x86_scan_start();
    x86_scan_line(CallingConvention::Windows_X64, &mut st, 1, &t, &f);
    let rules: Vec<&str> = st.diagnostics.iter().map(|d| d.rule.as_str()).collect();
    assert_eq!(rules, vec!["STACK_ALIGNMENT_VIOLATION", "WINDOWS_SHADOW_SPACE_MISSING"]);

    let mut st = x86_scan_start();
    let p: Vec<char> = "push rbx".chars().collect();
    let mut fp = no_facts("push rbx");
    fp.push = Some(vec!["push rbx".chars().collect(), "rbx".chars().collect()]);
    x86_scan_line(CallingConvention::SystemV_AMD64, &mut st, 1, &p, &fp);
    assert_eq!(st.stack_offset, 0);
    assert_eq!(st.pushed, vec!["rbx".chars().collect::<Vec<char>>()]);
    x86_scan_line(CallingConvention::SystemV_AMD64, &mut st, 2, &t, &f);
    assert!(st.diagnostics.is_empty());

    let mut st = x86_scan_start();
    let c: Vec<char> = "cqo".chars().collect();
    x86_scan_line(CallingConvention::SystemV_AMD64, &mut st, 1, &c, &no_facts("cqo"));
    assert_eq!(st.diagnostics[0].rule, "DESTRUCTIVE_SIGN_EXTENSION");
    assert_eq!(st.last_cqo_line, Some(1));
}
