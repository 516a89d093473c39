use assemble::mcp::{
    audit_mode_choice, disasm_syntax_choice, fix_abi_choice, idiom_filter, lint_abi_choice, lint_arch_choice, mcp_dispatch,
    mcp_tool_names, tool_kind, trace_gate, McpAction, ToolKind, TraceGate, MCP_METHOD_NOT_FOUND, MCP_TRACE_BASE,
};
use assemble::safety::SafetyGuardrails;
use assemble::types::{Arch, CallingConvention, ExecutionMode, Syntax};

#[test]
fn mcp_dispatch_answers_each_method() {
    assert_eq!(mcp_dispatch("initialize", ""), McpAction::Initialize);
    assert_eq!(mcp_dispatch("notifications/initialized", ""), McpAction::NoReply);
    assert_eq!(mcp_dispatch("tools/list", "asm_lint"), McpAction::ListTools);
    assert_eq!(mcp_dispatch("tools/call", "asm_trace"), McpAction::CallTool(ToolKind::Trace));
    assert_eq!(mcp_dispatch("tools/call", "asm_nope"), McpAction::CallTool(ToolKind::Unknown));
    assert_eq!(mcp_dispatch("resources/list", ""), McpAction::MethodNotFound);
    assert_eq!(mcp_dispatch("Initialize", ""), McpAction::MethodNotFound);
    assert_eq!(MCP_METHOD_NOT_FOUND, -32601);
}

#[test]
fn mcp_lists_the_nine_documented_tools() {
    let names = mcp_tool_names();
    assert_eq!(
        names,
        vec![
            "asm_lint",
            "asm_fix",
            "asm_audit_safety",
            "asm_template",
            "asm_assemble",
            "asm_disassemble",
            "asm_trace",
            "asm_query",
            "asm_idiom"
        ]
    );
    for n in names {
        assert_ne!(tool_kind(n), ToolKind::Unknown);
    }
    assert_eq!(mcp_dispatch("tools/call", "asm_template"), McpAction::CallTool(ToolKind::Template));
    assert_eq!(mcp_dispatch("tools/call", "asm_assemble"), McpAction::CallTool(ToolKind::Assemble));
    assert_eq!(tool_kind("asm_update_kg"), ToolKind::UpdateKg);
}

#[test]
fn mcp_default_arguments() {
    assert_eq!(lint_arch_choice(None), Arch::X86_64);
    assert_eq!(lint_arch_choice(Some("arm64")), Arch::Arm64);
    assert_eq!(lint_arch_choice(Some("sparc")), Arch::X86_64);
    assert_eq!(lint_abi_choice(None), None);
    assert_eq!(lint_abi_choice(Some("windows")), Some(CallingConvention::Windows_X64));
    assert_eq!(lint_abi_choice(Some("nope")), None);
    assert_eq!(fix_abi_choice(None), CallingConvention::Windows_X64);
    assert_eq!(fix_abi_choice(Some("sysv")), CallingConvention::SystemV_AMD64);
    assert_eq!(fix_abi_choice(Some("nope")), CallingConvention::Windows_X64);
    assert_eq!(disasm_syntax_choice(None), Syntax::Intel);
    assert_eq!(disasm_syntax_choice(Some("att")), Syntax::Att);
    assert_eq!(idiom_filter(None), "");
    assert_eq!(idiom_filter(Some("all")), "");
    assert_eq!(idiom_filter(Some("simd")), "simd");
    assert_eq!(MCP_TRACE_BASE, 0x400000);
    assert_eq!(audit_mode_choice(None), ExecutionMode::User);
    assert_eq!(audit_mode_choice(Some("kernel")), ExecutionMode::Kernel);
    assert_eq!(audit_mode_choice(Some("baremetal")), ExecutionMode::BareMetal);
    assert_eq!(audit_mode_choice(Some("nope")), ExecutionMode::User);
}

#[test]
fn mcp_trace_runs_only_audited_code() {
    let g = SafetyGuardrails::new();
    assert!(matches!(trace_gate(&g.audit("mov rax, 1\nret")), TraceGate::Assemble));
    match trace_gate(&g.audit("cli\nret")) {
        TraceGate::Blocked(m) => assert_eq!(
            m,
            "Execution blocked by Safety Guardrail: CRITICAL: Assembly contains privileged or crash-inducing instructions. Blocked from execution."
        ),
        TraceGate::Assemble => panic!("privileged code must not be traced"),
    }
    assert!(matches!(trace_gate(&g.audit("nop\nnop\nnop\nnop\nret")), TraceGate::Blocked(_)));
}
