//! Reading command input: cleaning inline source text, `REG=VAL` register
//! settings and hexadecimal byte strings, and printing bytes in hexadecimal.
use vstd::prelude::*;
use crate::assembler::nasm_backend::strip_bom;
use crate::emulator::tracer::{hex_bytes, hex_bytes_exec};
use crate::text::{
    chars_of, digit_value, parse_u64, parse_u64_exec, slice_chars, string_from, string_of, to_lowercase, trim,
    trim_chars, unicode_lowercase,
};

verus! {

/// The text with each `\n` escape (a backslash, then `n`) made a line break,
/// left to right, as `str::replace` does.
pub open spec fn unescape_newlines(s: Seq<char>) -> Seq<char>
    decreases s.len(),
{
    if s.len() < 2 {
        s
    } else if s[0] == '\\' && s[1] == 'n' {
        seq!['\n'] + unescape_newlines(s.skip(2))
    } else {
        seq![s[0]] + unescape_newlines(s.drop_first())
    }
}

/// Source text as a command takes it: leading byte-order marks dropped and,
/// for text given inline (not read from a file), `\n` escapes made line
/// breaks.
pub open spec fn clean_input_spec(raw: Seq<char>, from_file: bool) -> Seq<char> {
    if from_file {
        strip_bom(raw)
    } else {
        unescape_newlines(strip_bom(raw))
    }
}

/// Cleans source text read from a file (`from_file`) or given inline.
pub fn clean_input(raw: &str, from_file: bool) -> (res: String)
    ensures
        res@ == clean_input_spec(raw@, from_file),
{
    let code = chars_of(raw);
    let mut i: usize = 0;
    proof {
        assert(code@.skip(0) =~= code@);
    }
    while i < code.len() && code[i] == '\u{feff}'
        invariant
            i <= code.len(),
            strip_bom(code@) == strip_bom(code@.skip(i as int)),
        decreases code.len() - i,
    {
        proof {
            assert(code@.skip(i as int).drop_first() =~= code@.skip(i + 1));
        }
        i = i + 1;
    }
    let clean = slice_chars(&code, i, code.len());
    proof {
        assert(clean@ =~= code@.skip(i as int));
    }
    if from_file {
        return string_of(&clean);
    }
    let mut out: Vec<char> = Vec::new();
    let mut k: usize = 0;
    proof {
        assert(clean@.skip(0) =~= clean@);
        assert(out@ + unescape_newlines(clean@.skip(0)) =~= unescape_newlines(clean@));
    }
    while k < clean.len()
        invariant
            k <= clean@.len(),
            out@ + unescape_newlines(clean@.skip(k as int)) == unescape_newlines(clean@),
        decreases clean.len() - k,
    {
        let ghost rest = clean@.skip(k as int);
        if k + 1 < clean.len() && clean[k] == '\\' && clean[k + 1] == 'n' {
            out.push('\n');
            proof {
                assert(rest.skip(2) =~= clean@.skip(k + 2));
                assert(out@ + unescape_newlines(clean@.skip(k + 2)) =~= out@.drop_last() + unescape_newlines(rest));
            }
            k = k + 2;
        } else {
            out.push(clean[k]);
            proof {
                assert(rest.drop_first() =~= clean@.skip(k + 1));
                assert(out@ + unescape_newlines(clean@.skip(k + 1)) =~= out@.drop_last() + unescape_newlines(rest));
            }
            k = k + 1;
        }
    }
    proof {
        assert(clean@.skip(k as int) =~= Seq::<char>::empty());
        assert(out@ + Seq::<char>::empty() =~= out@);
    }
    string_of(&out)
}

/// Whether a character is an ASCII hexadecimal digit.
pub open spec fn is_hex_digit(c: char) -> bool {
    ('0' <= c && c <= '9') || ('a' <= c && c <= 'f') || ('A' <= c && c <= 'F')
}

/// The hexadecimal digits of a text, in order, everything else dropped.
pub open spec fn hex_digits(s: Seq<char>) -> Seq<char>
    decreases s.len(),
{
    if s.len() == 0 {
        s
    } else if is_hex_digit(s.last()) {
        hex_digits(s.drop_last()).push(s.last())
    } else {
        hex_digits(s.drop_last())
    }
}

/// The bytes that successive pairs of hexadecimal digits spell; an odd
/// last digit is dropped.
pub open spec fn hex_pairs(d: Seq<char>) -> Seq<u8> {
    Seq::new(d.len() / 2, |k: int| (16 * digit_value(d[2 * k], 16)->0 + digit_value(d[2 * k + 1], 16)->0) as u8)
}

fn hex_value(c: char) -> (v: u32)
    requires
        is_hex_digit(c),
    ensures
        digit_value(c, 16) == Some(v as nat),
        v < 16,
{
    if '0' <= c && c <= '9' {
        (c as u32) - ('0' as u32)
    } else if 'a' <= c && c <= 'f' {
        (c as u32) - ('a' as u32) + 10
    } else {
        (c as u32) - ('A' as u32) + 10
    }
}

/// The bytes a hexadecimal text spells: its hexadecimal digits, taken in
/// pairs.
pub fn parse_hex_bytes(hex: &str) -> (bytes: Vec<u8>)
    ensures
        bytes@ == hex_pairs(hex_digits(hex@)),
{
    let s = chars_of(hex);
    let mut d: Vec<char> = Vec::new();
    let mut i: usize = 0;
    while i < s.len()
        invariant
            i <= s@.len(),
            d@ == hex_digits(s@.take(i as int)),
            forall|t: int| 0 <= t < d@.len() ==> is_hex_digit(#[trigger] d@[t]),
        decreases s.len() - i,
    {
        proof {
            assert(s@.take(i + 1).drop_last() =~= s@.take(i as int));
        }
        let c = s[i];
        if ('0' <= c && c <= '9') || ('a' <= c && c <= 'f') || ('A' <= c && c <= 'F') {
            d.push(c);
        }
        i = i + 1;
    }
    proof {
        assert(s@.take(i as int) =~= hex@);
    }
    let mut bytes: Vec<u8> = Vec::new();
    let mut k: usize = 0;
    while k + 1 < d.len()
        invariant
            k % 2 == 0,
            k <= d@.len(),
            forall|t: int| 0 <= t < d@.len() ==> is_hex_digit(#[trigger] d@[t]),
            bytes@ == hex_pairs(d@).take(k as int / 2),
        decreases d.len() - k,
    {
        let hi = hex_value(d[k]);
        let lo = hex_value(d[k + 1]);
        let b = (16 * hi + lo) as u8;
        bytes.push(b);
        proof {
            assert(hex_pairs(d@).take((k + 2) as int / 2) =~= hex_pairs(d@).take(k as int / 2).push(b));
        }
        k = k + 2;
    }
    proof {
        assert(hex_pairs(d@).take(k as int / 2) =~= hex_pairs(d@));
    }
    bytes
}

/// Bytes in lower-case hexadecimal, two digits each, separated by spaces.
pub fn bytes_hex(bytes: &[u8]) -> (s: String)
    ensures
        s@ == hex_bytes(bytes@),
{
    let mut v: Vec<u8> = Vec::new();
    let mut i: usize = 0;
    while i < bytes.len()
        invariant
            i <= bytes@.len(),
            v@ == bytes@.take(i as int),
        decreases bytes.len() - i,
    {
        v.push(bytes[i]);
        proof {
            assert(bytes@.take(i + 1) =~= bytes@.take(i as int).push(bytes@[i as int]));
        }
        i = i + 1;
    }
    proof {
        assert(bytes@.take(i as int) =~= bytes@);
    }
    string_of(&hex_bytes_exec(&v))
}


/// What `REG=VAL` must look like.
pub const REG_KV_FORMAT: &'static str = "Expected REG=VAL format (e.g. rax=42)";

/// The digits of a register value and their radix: hexadecimal after `0x`
/// or `0X`, decimal otherwise.
pub open spec fn value_digits(v: Seq<char>) -> (Seq<char>, nat) {
    if crate::text::starts_with(v, "0x"@) || crate::text::starts_with(v, "0X"@) {
        (v.skip(2), 16)
    } else {
        (v, 10)
    }
}

/// Whether a text holds exactly one `=`.
pub open spec fn one_equals(s: Seq<char>) -> bool {
    crate::text::find_char(s, '=') matches Some(p) && crate::text::find_char(s.skip(p + 1), '=') is None
}

/// `u64::from_str_radix` on digits it refuses, and the text of its error as
/// `ParseIntError` displays it. Nothing is claimed of that text.
#[verifier::external_body]
fn int_error_text(digits: &Vec<char>, radix: u32) -> (e: String)
    requires
        2 <= radix <= 36,
{
    let s: String = digits.iter().collect();
    match u64::from_str_radix(&s, radix) {
        Ok(_) => String::new(),
        Err(err) => err.to_string(),
    }
}

/// Reads a register setting `REG=VAL`: the name trimmed and in lower case,
/// the value decimal or `0x` hexadecimal. More or fewer than one `=` is the
/// format error; a value that does not parse gives the parser's error.
pub fn parse_reg_kv(s: &str) -> (r: Result<(String, u64), String>)
    ensures
        !one_equals(s@) ==> (r matches Err(e) && e@ == REG_KV_FORMAT@),
        one_equals(s@) ==> ({
            let p = crate::text::find_char(s@, '=')->0;
            let name = unicode_lowercase(trim(s@.take(p)));
            let (digits, radix) = value_digits(trim(s@.skip(p + 1)));
            match parse_u64(digits, radix) {
                Some(v) => r matches Ok((n, x)) && n@ == name && x == v,
                None => r is Err,
            }
        }),
{
    let c = chars_of(s);
    proof {
        crate::text::lemma_find_char_bound(s@, '=', 0);
    }
    let p = match crate::text::find_char_in(&c, '=') {
        Some(p) => p,
        None => return Err(string_from(REG_KV_FORMAT)),
    };
    let rest = slice_chars(&c, p + 1, c.len());
    proof {
        assert(rest@ =~= s@.skip(p + 1));
    }
    if crate::text::find_char_in(&rest, '=').is_some() {
        return Err(string_from(REG_KV_FORMAT));
    }
    let head = slice_chars(&c, 0, p);
    proof {
        assert(head@ =~= s@.take(p as int));
    }
    let name = to_lowercase(&trim_chars(&head));
    let val = trim_chars(&rest);
    let hex = crate::text::starts_with_exec(&val, &chars_of("0x")) || crate::text::starts_with_exec(&val, &chars_of("0X"));
    proof {
        reveal_strlit("0x");
        reveal_strlit("0X");
    }
    let (digits, radix) = if hex {
        (slice_chars(&val, 2, val.len()), 16u32)
    } else {
        (val, 10u32)
    };
    proof {
        if hex {
            assert(digits@ =~= val@.skip(2));
        }
    }
    match parse_u64_exec(&digits, radix) {
        Some(v) => Ok((string_of(&name), v)),
        None => Err(int_error_text(&digits, radix)),
    }
}

} // verus!
