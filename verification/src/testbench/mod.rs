//! Checking assembled functions: harness generation and emulated test runs.
pub mod generator;
pub mod harness;
