//! Assembly engineering toolkit: static ABI linters for x86_64, ARM64 and
//! RISC-V, an automated fixer, a safety auditor and a step tracer.
pub mod templates;
pub mod text;
pub mod pattern;
pub mod assembler;
pub mod cpu;
pub mod emulator;
pub mod types;
pub mod testbench;
pub mod linter;
pub mod fixer;
pub mod safety;
pub mod knowledge;
pub mod util;
pub mod mcp;
