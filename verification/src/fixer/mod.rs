//! Automated repair of x86_64 assembly.
pub mod auto_fix;

pub use auto_fix::{AssemblyAutoFixer, AutoFixEdit, AutoFixReport};
