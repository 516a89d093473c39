//! The source text handed to NASM: a byte-order mark dropped and 64-bit mode
//! selected unless the text selects a mode itself.
use vstd::prelude::*;
use crate::text::{append, chars_of, contains_exec, contains_seq, string_of};

verus! {

/// `code` without leading byte-order marks.
pub open spec fn strip_bom(code: Seq<char>) -> Seq<char>
    decreases code.len(),
{
    if code.len() > 0 && code[0] == '\u{feff}' {
        strip_bom(code.drop_first())
    } else {
        code
    }
}

/// The text NASM assembles for `code`: `[BITS 64]` on a line of its own in
/// front, unless the text holds `[BITS` or `BITS ` already.
pub open spec fn nasm_source_spec(code: Seq<char>) -> Seq<char> {
    let clean = strip_bom(code);
    if !contains_seq(clean, "[BITS"@) && !contains_seq(clean, "BITS "@) {
        "[BITS 64]\n"@ + clean
    } else {
        clean
    }
}

pub fn nasm_source(assembly_code: &str) -> (src: String)
    ensures
        src@ == nasm_source_spec(assembly_code@),
{
    let code = chars_of(assembly_code);
    let mut i: usize = 0;
    proof {
        assert(code@.skip(0) =~= code@);
    }
    while i < code.len() && code[i] == '\u{feff}'
        invariant
            i <= code.len(),
            strip_bom(code@) == strip_bom(code@.skip(i as int)),
        decreases code.len() - i,
    {
        proof {
            assert(code@.skip(i as int).drop_first() =~= code@.skip(i + 1));
        }
        i = i + 1;
    }
    let clean = crate::text::slice_chars(&code, i, code.len());
    proof {
        assert(clean@ =~= code@.skip(i as int));
    }
    if !contains_exec(&clean, &chars_of("[BITS")) && !contains_exec(&clean, &chars_of("BITS ")) {
        let mut s = chars_of("[BITS 64]\n");
        append(&mut s, &clean);
        string_of(&s)
    } else {
        string_of(&clean)
    }
}

} // verus!
