//! A graph of assembly knowledge: instructions, registers, flags, calling
//! conventions, optimization idioms and system calls, with name lookups.
pub mod data;
pub mod graph;
pub mod updater;

pub use graph::{
    CallingConventionNode, FlagNode, IdiomNode, InstructionNode, KnowledgeEdge, KnowledgeNode,
    RegisterNode, SyscallNode,
};
