//! Pieces shared by the three linters: comment stripping and texts.
use vstd::prelude::*;
use crate::types::{Diag, Severity};
use crate::text::{find_char, find_char_in, find_seq, find_seq_in, chars_of, slice_chars, trim, trim_chars};

verus! {

/// The text before the first `c`, trimmed; the whole text when there is none.
pub open spec fn cut_at_char(t: Seq<char>, c: char) -> Seq<char> {
    match find_char(t, c) {
        Some(p) => trim(t.subrange(0, p)),
        None => t,
    }
}

/// The text before the first occurrence of `p`, trimmed; the whole text when
/// there is none.
pub open spec fn cut_at_seq(t: Seq<char>, p: Seq<char>) -> Seq<char> {
    match find_seq(t, p) {
        Some(k) => trim(t.subrange(0, k)),
        None => t,
    }
}

pub fn cut_at_char_exec(t: Vec<char>, c: char) -> (res: Vec<char>)
    ensures
        res@ == cut_at_char(t@, c),
{
    match find_char_in(&t, c) {
        Some(p) => {
            proof {
                crate::text::lemma_find_char_bound(t@, c, 0);
            }
            let head = slice_chars(&t, 0, p);
            trim_chars(&head)
        },
        None => t,
    }
}

pub fn cut_at_str_exec(t: Vec<char>, p: &str) -> (res: Vec<char>)
    ensures
        res@ == cut_at_seq(t@, p@),
{
    let pc = chars_of(p);
    match find_seq_in(&t, &pc) {
        Some(k) => {
            proof {
                crate::text::lemma_find_seq_bound(t@, pc@, 0);
            }
            let head = slice_chars(&t, 0, k);
            trim_chars(&head)
        },
        None => t,
    }
}

/// `"true"` or `"false"`.
pub open spec fn bool_text(b: bool) -> Seq<char> {
    if b {
        "true"@
    } else {
        "false"@
    }
}

pub fn bool_text_exec(b: bool) -> (res: Vec<char>)
    ensures
        res@ == bool_text(b),
{
    if b {
        chars_of("true")
    } else {
        chars_of("false")
    }
}

/// A diagnostic at column 1 with a fix suggestion.
pub open spec fn diag(
    rule: Seq<char>,
    severity: Severity,
    line: int,
    message: Seq<char>,
    explanation: Seq<char>,
    fix: Seq<char>,
) -> Diag {
    Diag { rule, severity, line, col: 1, message, explanation, fix_suggestion: Some(fix) }
}

} // verus!
