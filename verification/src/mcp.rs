//! The decisions of the Model Context Protocol server: which requests are
//! answered and how, which tools exist, what a tool's missing arguments
//! default to, and that code is audited before it is assembled and traced.
//! The server loop itself (reading requests, writing replies) runs outside
//! the library and hands each request to these functions.
use vstd::prelude::*;
use crate::safety::{execution_block_message, SafetyReport};
use crate::text::{chars_of, eq_str};
use crate::types::{
    parse_arch, parse_arch_spec, parse_calling_convention, parse_convention_spec, parse_execution_mode,
    parse_mode_spec, parse_syntax, parse_syntax_spec, Arch, CallingConvention, ExecutionMode, Syntax,
};

verus! {

/// The JSON-RPC error code of a request for a method the server lacks.
pub const MCP_METHOD_NOT_FOUND: i64 = -32601;

/// The address at which traced code is loaded.
pub const MCP_TRACE_BASE: u64 = 0x400000;

/// The tools the server offers.
#[derive(Debug, Clone, Copy, PartialEq, Eq, Structural)]
pub enum ToolKind {
    Lint,
    Fix,
    AuditSafety,
    Template,
    Assemble,
    Query,
    Idiom,
    Trace,
    Disassemble,
    UpdateKg,
    Unknown,
}

/// What the server does with one request.
#[derive(Debug, Clone, Copy, PartialEq, Eq, Structural)]
pub enum McpAction {
    /// A notification: nothing is sent back.
    NoReply,
    /// The handshake reply with the server's name and capabilities.
    Initialize,
    /// The list of tools.
    ListTools,
    /// A call of a tool; an unknown name is answered with an error result.
    CallTool(ToolKind),
    /// Any other method: error `MCP_METHOD_NOT_FOUND`.
    MethodNotFound,
}

/// The tool a name selects.
pub open spec fn tool_kind_spec(name: Seq<char>) -> ToolKind {
    if name == "asm_lint"@ {
        ToolKind::Lint
    } else if name == "asm_fix"@ {
        ToolKind::Fix
    } else if name == "asm_audit_safety"@ {
        ToolKind::AuditSafety
    } else if name == "asm_template"@ {
        ToolKind::Template
    } else if name == "asm_assemble"@ {
        ToolKind::Assemble
    } else if name == "asm_query"@ {
        ToolKind::Query
    } else if name == "asm_idiom"@ {
        ToolKind::Idiom
    } else if name == "asm_trace"@ {
        ToolKind::Trace
    } else if name == "asm_disassemble"@ {
        ToolKind::Disassemble
    } else if name == "asm_update_kg"@ {
        ToolKind::UpdateKg
    } else {
        ToolKind::Unknown
    }
}

/// What a request with this method (and, for `tools/call`, this tool name)
/// is answered with.
pub open spec fn mcp_dispatch_spec(method: Seq<char>, tool: Seq<char>) -> McpAction {
    if method == "initialize"@ {
        McpAction::Initialize
    } else if method == "notifications/initialized"@ {
        McpAction::NoReply
    } else if method == "tools/list"@ {
        McpAction::ListTools
    } else if method == "tools/call"@ {
        McpAction::CallTool(tool_kind_spec(tool))
    } else {
        McpAction::MethodNotFound
    }
}

/// The names of the tools the server lists, in the order it lists them.
/// (`asm_update_kg`, which refreshes the knowledge cache, is answered too
/// but is not listed.)
pub open spec fn mcp_tool_list() -> Seq<Seq<char>> {
    seq![
        "asm_lint"@,
        "asm_fix"@,
        "asm_audit_safety"@,
        "asm_template"@,
        "asm_assemble"@,
        "asm_disassemble"@,
        "asm_trace"@,
        "asm_query"@,
        "asm_idiom"@,
    ]
}

/// The tool a name selects.
pub fn tool_kind(name: &str) -> (k: ToolKind)
    ensures
        k == tool_kind_spec(name@),
{
    let n = chars_of(name);
    if eq_str(&n, "asm_lint") {
        ToolKind::Lint
    } else if eq_str(&n, "asm_fix") {
        ToolKind::Fix
    } else if eq_str(&n, "asm_audit_safety") {
        ToolKind::AuditSafety
    } else if eq_str(&n, "asm_template") {
        ToolKind::Template
    } else if eq_str(&n, "asm_assemble") {
        ToolKind::Assemble
    } else if eq_str(&n, "asm_query") {
        ToolKind::Query
    } else if eq_str(&n, "asm_idiom") {
        ToolKind::Idiom
    } else if eq_str(&n, "asm_trace") {
        ToolKind::Trace
    } else if eq_str(&n, "asm_disassemble") {
        ToolKind::Disassemble
    } else if eq_str(&n, "asm_update_kg") {
        ToolKind::UpdateKg
    } else {
        ToolKind::Unknown
    }
}

/// Decides what a request is answered with.
pub fn mcp_dispatch(method: &str, tool: &str) -> (a: McpAction)
    ensures
        a == mcp_dispatch_spec(method@, tool@),
{
    let m = chars_of(method);
    if eq_str(&m, "initialize") {
        McpAction::Initialize
    } else if eq_str(&m, "notifications/initialized") {
        McpAction::NoReply
    } else if eq_str(&m, "tools/list") {
        McpAction::ListTools
    } else if eq_str(&m, "tools/call") {
        McpAction::CallTool(tool_kind(tool))
    } else {
        McpAction::MethodNotFound
    }
}

/// The names of the tools, in the order the server lists them.
pub fn mcp_tool_names() -> (v: Vec<&'static str>)
    ensures
        v@.map_values(|s: &str| s@) == mcp_tool_list(),
{
    let mut v: Vec<&'static str> = Vec::new();
    v.push("asm_lint");
    v.push("asm_fix");
    v.push("asm_audit_safety");
    v.push("asm_template");
    v.push("asm_assemble");
    v.push("asm_disassemble");
    v.push("asm_trace");
    v.push("asm_query");
    v.push("asm_idiom");
    proof {
        assert(v@.map_values(|s: &str| s@) =~= mcp_tool_list());
    }
    v
}

/// Every listed tool is one the server answers: a call of a listed name is
/// never answered as an unknown tool.
pub proof fn law_listed_tools_are_known(i: int)
    requires
        0 <= i < mcp_tool_list().len(),
    ensures
        tool_kind_spec(mcp_tool_list()[i]) != ToolKind::Unknown,
        mcp_dispatch_spec("tools/call"@, mcp_tool_list()[i]) == McpAction::CallTool(tool_kind_spec(mcp_tool_list()[i])),
{
    reveal_strlit("tools/call");
    reveal_strlit("initialize");
    reveal_strlit("notifications/initialized");
    reveal_strlit("tools/list");
    assert("tools/call"@[0] != "initialize"@[0]);
    assert("tools/call"@.len() != "notifications/initialized"@.len());
    assert("tools/call"@[6] != "tools/list"@[6]);
    reveal_strlit("asm_lint");
    reveal_strlit("asm_fix");
    reveal_strlit("asm_audit_safety");
    reveal_strlit("asm_template");
    reveal_strlit("asm_assemble");
    reveal_strlit("asm_query");
    reveal_strlit("asm_idiom");
    reveal_strlit("asm_trace");
    reveal_strlit("asm_disassemble");
    reveal_strlit("asm_update_kg");
}

/// The execution context `asm_audit_safety` audits for: the `mode`
/// argument where it names one, user mode where it is missing or names none.
pub open spec fn audit_context_spec(mode: Option<Seq<char>>) -> ExecutionMode {
    match mode {
        Some(s) => match parse_mode_spec(s) {
            Ok(m) => m,
            Err(_) => ExecutionMode::User,
        },
        None => ExecutionMode::User,
    }
}

pub fn audit_mode_choice(mode: Option<&str>) -> (m: ExecutionMode)
    ensures
        m == audit_context_spec(match mode { Some(s) => Some(s@), None => None }),
{
    match mode {
        Some(s) => match parse_execution_mode(s) {
            Ok(m) => m,
            Err(_) => ExecutionMode::User,
        },
        None => ExecutionMode::User,
    }
}

/// The architecture `asm_lint` checks: the `arch` argument where it names
/// one, x86_64 where it is missing or names none.
pub open spec fn lint_arch_spec(arch: Option<Seq<char>>) -> Arch {
    match arch {
        Some(s) => match parse_arch_spec(s) {
            Ok(a) => a,
            Err(_) => Arch::X86_64,
        },
        None => Arch::X86_64,
    }
}

pub fn lint_arch_choice(arch: Option<&str>) -> (a: Arch)
    ensures
        a == lint_arch_spec(match arch { Some(s) => Some(s@), None => None }),
{
    match arch {
        Some(s) => match parse_arch(s) {
            Ok(a) => a,
            Err(_) => Arch::X86_64,
        },
        None => Arch::X86_64,
    }
}

/// The convention `asm_lint` checks against: the `abi` argument where it
/// names one; otherwise none, so the architecture's default applies.
pub open spec fn lint_abi_spec(abi: Option<Seq<char>>) -> Option<CallingConvention> {
    match abi {
        Some(s) => match parse_convention_spec(s) {
            Ok(c) => Some(c),
            Err(_) => None,
        },
        None => None,
    }
}

pub fn lint_abi_choice(abi: Option<&str>) -> (c: Option<CallingConvention>)
    ensures
        c == lint_abi_spec(match abi { Some(s) => Some(s@), None => None }),
{
    match abi {
        Some(s) => match parse_calling_convention(s) {
            Ok(c) => Some(c),
            Err(_) => None,
        },
        None => None,
    }
}

/// The convention `asm_fix` repairs for: the `abi` argument where it names
/// one, Windows x64 where it is missing or names none.
pub open spec fn fix_abi_spec(abi: Option<Seq<char>>) -> CallingConvention {
    match abi {
        Some(s) => match parse_convention_spec(s) {
            Ok(c) => c,
            Err(_) => CallingConvention::Windows_X64,
        },
        None => CallingConvention::Windows_X64,
    }
}

pub fn fix_abi_choice(abi: Option<&str>) -> (c: CallingConvention)
    ensures
        c == fix_abi_spec(match abi { Some(s) => Some(s@), None => None }),
{
    match abi {
        Some(s) => match parse_calling_convention(s) {
            Ok(c) => c,
            Err(_) => CallingConvention::Windows_X64,
        },
        None => CallingConvention::Windows_X64,
    }
}

/// The syntax `asm_disassemble` prints in: the `syntax` argument where it
/// names one, Intel where it is missing or names none.
pub open spec fn disasm_syntax_spec(syntax: Option<Seq<char>>) -> Syntax {
    match syntax {
        Some(s) => match parse_syntax_spec(s) {
            Ok(x) => x,
            Err(_) => Syntax::Intel,
        },
        None => Syntax::Intel,
    }
}

pub fn disasm_syntax_choice(syntax: Option<&str>) -> (x: Syntax)
    ensures
        x == disasm_syntax_spec(match syntax { Some(s) => Some(s@), None => None }),
{
    match syntax {
        Some(s) => match parse_syntax(s) {
            Ok(x) => x,
            Err(_) => Syntax::Intel,
        },
        None => Syntax::Intel,
    }
}

/// The category filter `asm_idiom` looks idioms up with: a missing category
/// or `all` is the empty filter, which every category contains.
pub open spec fn idiom_filter_spec(category: Option<Seq<char>>) -> Seq<char> {
    match category {
        Some(c) => if c == "all"@ { Seq::empty() } else { c },
        None => Seq::empty(),
    }
}

pub fn idiom_filter(category: Option<&str>) -> (f: &str)
    ensures
        f@ == idiom_filter_spec(match category { Some(c) => Some(c@), None => None }),
{
    match category {
        Some(c) => {
            if eq_str(&chars_of(c), "all") {
                proof {
                    reveal_strlit("");
                }
                ""
            } else {
                c
            }
        },
        None => {
            proof {
                reveal_strlit("");
            }
            ""
        },
    }
}

/// What `asm_trace` does with code once audited.
#[derive(Debug, Clone)]
pub enum TraceGate {
    /// The audit lets it run: assemble and trace it.
    Assemble,
    /// The audit blocks it: answer with this error text, and run nothing.
    Blocked(String),
}

/// Code is assembled and traced only where its audit lets it run; where it
/// does not, the answer is the block message.
pub fn trace_gate(r: &SafetyReport) -> (g: TraceGate)
    ensures
        (g is Assemble) <==> r.is_executable_safely,
        match g {
            TraceGate::Blocked(m) => m@ == "Execution blocked by Safety Guardrail: "@ + r.summary@,
            TraceGate::Assemble => true,
        },
{
    match execution_block_message(r) {
        Some(m) => TraceGate::Blocked(m),
        None => TraceGate::Assemble,
    }
}

} // verus!
