//! Safety auditing of assembly before it is run or emulated.
pub mod guardrails;

pub use guardrails::{execution_block_message, SafetyFinding, SafetyGuardrails, SafetyReport, SafetyRiskLevel};
