//! Shared vocabulary: architectures, syntaxes, execution modes, calling
//! conventions, diagnostics and the emulated CPU state.
use vstd::prelude::*;
pub use crate::cpu::{CpuFlags, CpuRegisters, FlagDiff, RegisterDiff, TraceStep};
use crate::text::{append, append_str, chars_of, eq_str, string_from, string_of, to_lowercase, unicode_lowercase};

verus! {

#[derive(Debug, Clone, Copy, PartialEq, Eq, Hash, Structural)]
pub enum Arch {
    X86_64,
    X86_32,
    Arm64,
    Arm32,
    Riscv64,
}

impl Arch {
    /// The display name of the architecture.
    pub open spec fn name_spec(self) -> Seq<char> {
        match self {
            Arch::X86_64 => "x86_64"@,
            Arch::X86_32 => "x86_32"@,
            Arch::Arm64 => "arm64"@,
            Arch::Arm32 => "arm32"@,
            Arch::Riscv64 => "riscv64"@,
        }
    }

    /// The display name of the architecture (`x86_64`, `arm64`, ...).
    pub fn to_string(&self) -> (s: String)
        ensures
            s@ == self.name_spec(),
    {
        match self {
            Arch::X86_64 => string_from("x86_64"),
            Arch::X86_32 => string_from("x86_32"),
            Arch::Arm64 => string_from("arm64"),
            Arch::Arm32 => string_from("arm32"),
            Arch::Riscv64 => string_from("riscv64"),
        }
    }
}

/// The architecture that a lower-case name stands for.
pub open spec fn arch_of_name(l: Seq<char>) -> Option<Arch> {
    if l == "x86_64"@ || l == "x86-64"@ || l == "x64"@ || l == "amd64"@ {
        Some(Arch::X86_64)
    } else if l == "x86"@ || l == "x86_32"@ || l == "i386"@ || l == "i686"@ {
        Some(Arch::X86_32)
    } else if l == "arm64"@ || l == "aarch64"@ {
        Some(Arch::Arm64)
    } else if l == "arm"@ || l == "arm32"@ || l == "armv7"@ {
        Some(Arch::Arm32)
    } else if l == "riscv64"@ || l == "riscv"@ || l == "rv64"@ {
        Some(Arch::Riscv64)
    } else {
        None
    }
}

/// Parses an architecture name, case-insensitively.
pub open spec fn parse_arch_spec(s: Seq<char>) -> Result<Arch, Seq<char>> {
    match arch_of_name(unicode_lowercase(s)) {
        Some(a) => Ok(a),
        None => Err("Unsupported architecture: "@ + unicode_lowercase(s)),
    }
}

pub open spec fn result_matches<T>(res: Result<T, String>, spec: Result<T, Seq<char>>) -> bool {
    match res {
        Ok(v) => spec == Ok::<T, Seq<char>>(v),
        Err(e) => spec == Err::<T, Seq<char>>(e@),
    }
}

/// The error text `prefix` followed by `l`.
fn error_text(prefix: &str, l: &Vec<char>) -> (res: String)
    ensures
        res@ == prefix@ + l@,
{
    let mut v = chars_of(prefix);
    append(&mut v, l);
    string_of(&v)
}

pub fn parse_arch(s: &str) -> (res: Result<Arch, String>)
    ensures
        result_matches(res, parse_arch_spec(s@)),
{
    let sv = chars_of(s);
    let l = to_lowercase(&sv);
    if eq_str(&l, "x86_64") || eq_str(&l, "x86-64") || eq_str(&l, "x64") || eq_str(&l, "amd64") {
        Ok(Arch::X86_64)
    } else if eq_str(&l, "x86") || eq_str(&l, "x86_32") || eq_str(&l, "i386") || eq_str(&l, "i686") {
        Ok(Arch::X86_32)
    } else if eq_str(&l, "arm64") || eq_str(&l, "aarch64") {
        Ok(Arch::Arm64)
    } else if eq_str(&l, "arm") || eq_str(&l, "arm32") || eq_str(&l, "armv7") {
        Ok(Arch::Arm32)
    } else if eq_str(&l, "riscv64") || eq_str(&l, "riscv") || eq_str(&l, "rv64") {
        Ok(Arch::Riscv64)
    } else {
        Err(error_text("Unsupported architecture: ", &l))
    }
}

impl std::str::FromStr for Arch {
    type Err = String;

    fn from_str(s: &str) -> (res: Result<Self, Self::Err>)
        ensures
            result_matches(res, parse_arch_spec(s@)),
    {
        parse_arch(s)
    }
}

#[derive(Debug, Clone, Copy, PartialEq, Eq, Hash, Structural)]
pub enum Syntax {
    Intel,
    Att,
    Nasm,
    Masm,
}

pub open spec fn syntax_of_name(l: Seq<char>) -> Option<Syntax> {
    if l == "intel"@ {
        Some(Syntax::Intel)
    } else if l == "att"@ || l == "at&t"@ {
        Some(Syntax::Att)
    } else if l == "nasm"@ {
        Some(Syntax::Nasm)
    } else if l == "masm"@ {
        Some(Syntax::Masm)
    } else {
        None
    }
}

pub open spec fn parse_syntax_spec(s: Seq<char>) -> Result<Syntax, Seq<char>> {
    match syntax_of_name(unicode_lowercase(s)) {
        Some(a) => Ok(a),
        None => Err("Unsupported syntax: "@ + unicode_lowercase(s)),
    }
}

pub fn parse_syntax(s: &str) -> (res: Result<Syntax, String>)
    ensures
        result_matches(res, parse_syntax_spec(s@)),
{
    let sv = chars_of(s);
    let l = to_lowercase(&sv);
    if eq_str(&l, "intel") {
        Ok(Syntax::Intel)
    } else if eq_str(&l, "att") || eq_str(&l, "at&t") {
        Ok(Syntax::Att)
    } else if eq_str(&l, "nasm") {
        Ok(Syntax::Nasm)
    } else if eq_str(&l, "masm") {
        Ok(Syntax::Masm)
    } else {
        Err(error_text("Unsupported syntax: ", &l))
    }
}

impl std::str::FromStr for Syntax {
    type Err = String;

    fn from_str(s: &str) -> (res: Result<Self, Self::Err>)
        ensures
            result_matches(res, parse_syntax_spec(s@)),
    {
        parse_syntax(s)
    }
}

#[derive(Debug, Clone, Copy, PartialEq, Eq, Hash, Structural)]
pub enum ExecutionMode {
    User,
    Kernel,
    BareMetal,
}

impl Default for ExecutionMode {
    fn default() -> (m: Self)
        ensures
            m == ExecutionMode::User,
    {
        ExecutionMode::User
    }
}

pub open spec fn mode_of_name(l: Seq<char>) -> Option<ExecutionMode> {
    if l == "user"@ || l == "app"@ || l == "userspace"@ {
        Some(ExecutionMode::User)
    } else if l == "kernel"@ || l == "driver"@ || l == "kmd"@ || l == "sys"@ {
        Some(ExecutionMode::Kernel)
    } else if l == "baremetal"@ || l == "embedded"@ || l == "firmware"@ || l == "freestanding"@ {
        Some(ExecutionMode::BareMetal)
    } else {
        None
    }
}

pub open spec fn parse_mode_spec(s: Seq<char>) -> Result<ExecutionMode, Seq<char>> {
    match mode_of_name(unicode_lowercase(s)) {
        Some(a) => Ok(a),
        None => Err(
            "Unknown execution mode: "@ + unicode_lowercase(s)
                + ". Expected 'user', 'kernel', or 'baremetal'"@,
        ),
    }
}

pub fn parse_execution_mode(s: &str) -> (res: Result<ExecutionMode, String>)
    ensures
        result_matches(res, parse_mode_spec(s@)),
{
    let sv = chars_of(s);
    let l = to_lowercase(&sv);
    if eq_str(&l, "user") || eq_str(&l, "app") || eq_str(&l, "userspace") {
        Ok(ExecutionMode::User)
    } else if eq_str(&l, "kernel") || eq_str(&l, "driver") || eq_str(&l, "kmd") || eq_str(&l, "sys") {
        Ok(ExecutionMode::Kernel)
    } else if eq_str(&l, "baremetal") || eq_str(&l, "embedded") || eq_str(&l, "firmware")
        || eq_str(&l, "freestanding") {
        Ok(ExecutionMode::BareMetal)
    } else {
        let mut v = chars_of("Unknown execution mode: ");
        append(&mut v, &l);
        append_str(&mut v, ". Expected 'user', 'kernel', or 'baremetal'");
        Err(string_of(&v))
    }
}

impl std::str::FromStr for ExecutionMode {
    type Err = String;

    fn from_str(s: &str) -> (res: Result<Self, Self::Err>)
        ensures
            result_matches(res, parse_mode_spec(s@)),
    {
        parse_execution_mode(s)
    }
}

#[allow(non_camel_case_types)]
#[derive(Debug, Clone, Copy, PartialEq, Eq, Hash, Structural)]
pub enum CallingConvention {
    SystemV_AMD64,
    Windows_X64,
    Windows_Kernel,
    Linux_Kernel,
    Arm64_AAPCS,
    Riscv_LP64,
}

impl CallingConvention {
    /// The `{:?}` text of the convention.
    pub open spec fn debug_name(self) -> Seq<char> {
        match self {
            CallingConvention::SystemV_AMD64 => "SystemV_AMD64"@,
            CallingConvention::Windows_X64 => "Windows_X64"@,
            CallingConvention::Windows_Kernel => "Windows_Kernel"@,
            CallingConvention::Linux_Kernel => "Linux_Kernel"@,
            CallingConvention::Arm64_AAPCS => "Arm64_AAPCS"@,
            CallingConvention::Riscv_LP64 => "Riscv_LP64"@,
        }
    }

    pub fn debug_text(&self) -> (v: Vec<char>)
        ensures
            v@ == self.debug_name(),
    {
        match self {
            CallingConvention::SystemV_AMD64 => chars_of("SystemV_AMD64"),
            CallingConvention::Windows_X64 => chars_of("Windows_X64"),
            CallingConvention::Windows_Kernel => chars_of("Windows_Kernel"),
            CallingConvention::Linux_Kernel => chars_of("Linux_Kernel"),
            CallingConvention::Arm64_AAPCS => chars_of("Arm64_AAPCS"),
            CallingConvention::Riscv_LP64 => chars_of("Riscv_LP64"),
        }
    }
}

pub open spec fn convention_of_name(l: Seq<char>) -> Option<CallingConvention> {
    if l == "sysv"@ || l == "systemv"@ || l == "linux"@ || l == "elf"@ || l == "sysv_amd64"@ {
        Some(CallingConvention::SystemV_AMD64)
    } else if l == "win64"@ || l == "windows"@ || l == "ms64"@ || l == "windows_x64"@ || l
        == "win_x64"@ || l == "msvc"@ {
        Some(CallingConvention::Windows_X64)
    } else if l == "win_kernel"@ || l == "windows_kernel"@ || l == "ntoskrnl"@ || l == "wdm"@ || l
        == "kmdf"@ {
        Some(CallingConvention::Windows_Kernel)
    } else if l == "linux_kernel"@ || l == "kmod"@ {
        Some(CallingConvention::Linux_Kernel)
    } else if l == "arm64"@ || l == "aapcs"@ || l == "aapcs64"@ || l == "arm64_aapcs"@ {
        Some(CallingConvention::Arm64_AAPCS)
    } else if l == "riscv"@ || l == "lp64"@ || l == "riscv_lp64"@ || l == "rv64"@ {
        Some(CallingConvention::Riscv_LP64)
    } else {
        None
    }
}

pub open spec fn parse_convention_spec(s: Seq<char>) -> Result<CallingConvention, Seq<char>> {
    match convention_of_name(unicode_lowercase(s)) {
        Some(a) => Ok(a),
        None => Err("Unknown calling convention: "@ + unicode_lowercase(s)),
    }
}

pub fn parse_calling_convention(s: &str) -> (res: Result<CallingConvention, String>)
    ensures
        result_matches(res, parse_convention_spec(s@)),
{
    let sv = chars_of(s);
    let l = to_lowercase(&sv);
    if eq_str(&l, "sysv") || eq_str(&l, "systemv") || eq_str(&l, "linux") || eq_str(&l, "elf")
        || eq_str(&l, "sysv_amd64") {
        Ok(CallingConvention::SystemV_AMD64)
    } else if eq_str(&l, "win64") || eq_str(&l, "windows") || eq_str(&l, "ms64") || eq_str(
        &l,
        "windows_x64",
    ) || eq_str(&l, "win_x64") || eq_str(&l, "msvc") {
        Ok(CallingConvention::Windows_X64)
    } else if eq_str(&l, "win_kernel") || eq_str(&l, "windows_kernel") || eq_str(&l, "ntoskrnl")
        || eq_str(&l, "wdm") || eq_str(&l, "kmdf") {
        Ok(CallingConvention::Windows_Kernel)
    } else if eq_str(&l, "linux_kernel") || eq_str(&l, "kmod") {
        Ok(CallingConvention::Linux_Kernel)
    } else if eq_str(&l, "arm64") || eq_str(&l, "aapcs") || eq_str(&l, "aapcs64") || eq_str(
        &l,
        "arm64_aapcs",
    ) {
        Ok(CallingConvention::Arm64_AAPCS)
    } else if eq_str(&l, "riscv") || eq_str(&l, "lp64") || eq_str(&l, "riscv_lp64") || eq_str(
        &l,
        "rv64",
    ) {
        Ok(CallingConvention::Riscv_LP64)
    } else {
        Err(error_text("Unknown calling convention: ", &l))
    }
}

impl std::str::FromStr for CallingConvention {
    type Err = String;

    fn from_str(s: &str) -> (res: Result<Self, Self::Err>)
        ensures
            result_matches(res, parse_convention_spec(s@)),
    {
        parse_calling_convention(s)
    }
}

#[derive(Debug, Clone, Copy, PartialEq, Eq, PartialOrd, Ord, Hash, Structural)]
pub enum Severity {
    Hint,
    Info,
    Warning,
    Error,
}

impl Severity {
    pub open spec fn name_spec(self) -> Seq<char> {
        match self {
            Severity::Hint => "HINT"@,
            Severity::Info => "INFO"@,
            Severity::Warning => "WARNING"@,
            Severity::Error => "ERROR"@,
        }
    }

    /// The display name of the severity (`HINT`, `INFO`, `WARNING`, `ERROR`).
    pub fn to_string(&self) -> (s: String)
        ensures
            s@ == self.name_spec(),
    {
        match self {
            Severity::Hint => string_from("HINT"),
            Severity::Info => string_from("INFO"),
            Severity::Warning => string_from("WARNING"),
            Severity::Error => string_from("ERROR"),
        }
    }
}

/// One finding of a linter.
#[derive(Debug, Clone)]
pub struct LintDiagnostic {
    pub rule: String,
    pub severity: Severity,
    pub line: usize,
    pub col: usize,
    pub message: String,
    pub explanation: String,
    pub fix_suggestion: Option<String>,
}

/// The mathematical content of a diagnostic.
pub struct Diag {
    pub rule: Seq<char>,
    pub severity: Severity,
    pub line: int,
    pub col: int,
    pub message: Seq<char>,
    pub explanation: Seq<char>,
    pub fix_suggestion: Option<Seq<char>>,
}

impl View for LintDiagnostic {
    type V = Diag;

    open spec fn view(&self) -> Diag {
        Diag {
            rule: self.rule@,
            severity: self.severity,
            line: self.line as int,
            col: self.col as int,
            message: self.message@,
            explanation: self.explanation@,
            fix_suggestion: match self.fix_suggestion {
                Some(f) => Some(f@),
                None => None,
            },
        }
    }
}

/// The views of a list of diagnostics.
pub open spec fn diags_view(v: Seq<LintDiagnostic>) -> Seq<Diag> {
    v.map_values(|d: LintDiagnostic| d@)
}

/// Builds a diagnostic at column 1 from character texts.
pub fn make_diag(
    rule: &str,
    severity: Severity,
    line: usize,
    message: &Vec<char>,
    explanation: &Vec<char>,
    fix: &Vec<char>,
) -> (d: LintDiagnostic)
    ensures
        d@ == (Diag {
            rule: rule@,
            severity,
            line: line as int,
            col: 1,
            message: message@,
            explanation: explanation@,
            fix_suggestion: Some(fix@),
        }),
{
    LintDiagnostic {
        rule: string_from(rule),
        severity,
        line,
        col: 1,
        message: string_of(message),
        explanation: string_of(explanation),
        fix_suggestion: Some(string_of(fix)),
    }
}


/// Appends a diagnostic to a list.
pub fn push_diag(v: &mut Vec<LintDiagnostic>, d: LintDiagnostic)
    ensures
        diags_view(final(v)@) == diags_view(old(v)@).push(d@),
{
    let ghost old_v = v@;
    v.push(d);
    proof {
        assert(diags_view(v@) =~= diags_view(old_v).push(d@));
    }
}



/// An architecture's display name reads back as the same architecture.
pub proof fn law_arch_name_round_trip(a: Arch)
    ensures
        arch_of_name(a.name_spec()) == Some(a),
{
    reveal_strlit("x86_64");
    reveal_strlit("x86-64");
    reveal_strlit("x64");
    reveal_strlit("amd64");
    reveal_strlit("x86");
    reveal_strlit("x86_32");
    reveal_strlit("i386");
    reveal_strlit("i686");
    reveal_strlit("arm64");
    reveal_strlit("aarch64");
    reveal_strlit("arm");
    reveal_strlit("arm32");
    reveal_strlit("armv7");
    reveal_strlit("riscv64");
    reveal_strlit("riscv");
    reveal_strlit("rv64");
    match a {
        Arch::X86_64 => {},
        Arch::X86_32 => {
            assert("x86_32"@[4] != "x86_64"@[4]);
            assert("x86_32"@[3] != "x86-64"@[3]);
            assert("x64"@.len() == 3 && "x86"@.len() == 3);
        },
        Arch::Arm64 => {
            assert("arm64"@[1] != "amd64"@[1]);
            assert("x64"@.len() == 3 && "x86"@.len() == 3);
        },
        Arch::Arm32 => {
            assert("arm32"@[1] != "amd64"@[1]);
            assert("arm32"@[3] != "arm64"@[3]);
            assert("x64"@.len() == 3 && "x86"@.len() == 3 && "arm"@.len() == 3);
        },
        Arch::Riscv64 => {
            assert("riscv64"@[0] != "aarch64"@[0]);
            assert("x64"@.len() == 3 && "x86"@.len() == 3 && "arm"@.len() == 3);
        },
    }
}

} // verus!
