//! Machine-code listing of x86_64 bytes, and the source text handed to NASM.
pub mod iced_backend;
pub mod nasm_backend;

use vstd::prelude::*;
pub use crate::assembler::iced_backend::{disassemble_x86_64, disasm_from, listing_view, DisassembledInstruction, Listed};
use crate::types::Syntax;

verus! {

/// Disassembles 64-bit x86 code whose first byte is at `base_ip`.
pub fn disassemble(bytes: &[u8], base_ip: u64, syntax: Syntax) -> (res: Vec<DisassembledInstruction>)
    ensures
        listing_view(res@) == disasm_from(bytes@, 0, base_ip, syntax),
{
    disassemble_x86_64(bytes, base_ip, syntax)
}

} // verus!
