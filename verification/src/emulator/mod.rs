//! Step-by-step emulation of x86_64 machine code.
pub mod tracer;

pub use tracer::StepTracer;
