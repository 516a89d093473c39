//! Character-sequence helpers shared by the linters, the fixer and the
//! safety auditor. Source text is handled as `Vec<char>` so that its view is
//! the `Seq<char>` that the contracts speak of.
use vstd::prelude::*;

verus! {

/// The Unicode `White_Space` property, which `char::is_whitespace` and
/// `str::trim` follow.
pub open spec fn is_ws(c: char) -> bool {
    ||| ('\u{9}' <= c && c <= '\u{d}')
    ||| c == ' '
    ||| c == '\u{85}'
    ||| c == '\u{a0}'
    ||| c == '\u{1680}'
    ||| ('\u{2000}' <= c && c <= '\u{200a}')
    ||| c == '\u{2028}'
    ||| c == '\u{2029}'
    ||| c == '\u{202f}'
    ||| c == '\u{205f}'
    ||| c == '\u{3000}'
}

/// Index of the first non-whitespace character at or after `i` (or `s.len()`).
pub open spec fn first_non_ws(s: Seq<char>, i: int) -> int
    decreases s.len() - i,
{
    if i < 0 || i >= s.len() {
        s.len() as int
    } else if is_ws(s[i]) {
        first_non_ws(s, i + 1)
    } else {
        i
    }
}

/// One past the last non-whitespace character before `j` (or 0).
pub open spec fn end_non_ws(s: Seq<char>, j: int) -> int
    decreases j,
{
    if j <= 0 || j > s.len() {
        0
    } else if is_ws(s[j - 1]) {
        end_non_ws(s, j - 1)
    } else {
        j
    }
}

/// `str::trim`: the text without leading and trailing whitespace.
pub open spec fn trim(s: Seq<char>) -> Seq<char> {
    let a = first_non_ws(s, 0);
    let b = end_non_ws(s, s.len() as int);
    if a < b {
        s.subrange(a, b)
    } else {
        Seq::empty()
    }
}

proof fn lemma_first_non_ws(s: Seq<char>, i: int)
    requires
        0 <= i <= s.len(),
    ensures
        i <= first_non_ws(s, i) <= s.len(),
        forall|k: int| i <= k < first_non_ws(s, i) ==> is_ws(#[trigger] s[k]),
        first_non_ws(s, i) < s.len() ==> !is_ws(s[first_non_ws(s, i)]),
    decreases s.len() - i,
{
    if i < s.len() && is_ws(s[i]) {
        lemma_first_non_ws(s, i + 1);
    }
}

proof fn lemma_end_non_ws(s: Seq<char>, j: int)
    requires
        0 <= j <= s.len(),
    ensures
        0 <= end_non_ws(s, j) <= j,
        forall|k: int| end_non_ws(s, j) <= k < j ==> is_ws(#[trigger] s[k]),
        end_non_ws(s, j) > 0 ==> !is_ws(s[end_non_ws(s, j) - 1]),
    decreases j,
{
    if j > 0 && is_ws(s[j - 1]) {
        lemma_end_non_ws(s, j - 1);
    }
}

pub fn char_is_ws(c: char) -> (b: bool)
    ensures
        b == is_ws(c),
{
    ('\u{9}' <= c && c <= '\u{d}') || c == ' ' || c == '\u{85}' || c == '\u{a0}' || c
        == '\u{1680}' || ('\u{2000}' <= c && c <= '\u{200a}') || c == '\u{2028}' || c
        == '\u{2029}' || c == '\u{202f}' || c == '\u{205f}' || c == '\u{3000}'
}

/// Copies `s[from..to]` into a new vector.
pub fn slice_chars(s: &Vec<char>, from: usize, to: usize) -> (res: Vec<char>)
    requires
        from <= to <= s.len(),
    ensures
        res@ == s@.subrange(from as int, to as int),
{
    let mut res: Vec<char> = Vec::new();
    let mut i = from;
    while i < to
        invariant
            from <= i <= to <= s.len(),
            res@ == s@.subrange(from as int, i as int),
        decreases to - i,
    {
        res.push(s[i]);
        i = i + 1;
    }
    res
}

pub fn trim_chars(s: &Vec<char>) -> (res: Vec<char>)
    ensures
        res@ == trim(s@),
{
    let n = s.len();
    let mut a: usize = 0;
    while a < n && char_is_ws(s[a])
        invariant
            a <= n == s.len(),
            first_non_ws(s@, 0) == first_non_ws(s@, a as int),
        decreases n - a,
    {
        a = a + 1;
    }
    let mut b: usize = n;
    while b > 0 && char_is_ws(s[b - 1])
        invariant
            b <= n == s.len(),
            end_non_ws(s@, n as int) == end_non_ws(s@, b as int),
        decreases b,
    {
        b = b - 1;
    }
    if a < b {
        slice_chars(s, a, b)
    } else {
        Vec::new()
    }
}


/// Drops one trailing carriage return.
pub open spec fn strip_cr(l: Seq<char>) -> Seq<char> {
    if l.len() > 0 && l.last() == '\r' {
        l.drop_last()
    } else {
        l
    }
}

/// Lines finished within `s[0..i]`, and the line still open after it.
pub open spec fn lines_upto(s: Seq<char>, i: int) -> (Seq<Seq<char>>, Seq<char>)
    decreases i,
{
    if i <= 0 || i > s.len() {
        (Seq::empty(), Seq::empty())
    } else {
        let (done, cur) = lines_upto(s, i - 1);
        if s[i - 1] == '\n' {
            (done.push(strip_cr(cur)), Seq::empty())
        } else {
            (done, cur.push(s[i - 1]))
        }
    }
}

/// `str::lines`: pieces split at `\n`, a `\r` just before a `\n` dropped, and
/// no empty piece after a final line ending.
pub open spec fn lines(s: Seq<char>) -> Seq<Seq<char>> {
    let (done, cur) = lines_upto(s, s.len() as int);
    if cur.len() > 0 {
        done.push(cur)
    } else {
        done
    }
}

proof fn lemma_lines_upto_len(s: Seq<char>, i: int)
    requires
        0 <= i <= s.len(),
    ensures
        lines_upto(s, i).0.len() + lines_upto(s, i).1.len() <= i,
    decreases i,
{
    if i > 0 {
        lemma_lines_upto_len(s, i - 1);
    }
}

/// A text has no more lines than characters.
pub proof fn lemma_lines_len(s: Seq<char>)
    ensures
        lines(s).len() <= s.len(),
{
    lemma_lines_upto_len(s, s.len() as int);
}

pub fn split_lines(s: &Vec<char>) -> (res: Vec<Vec<char>>)
    ensures
        res.deep_view() == lines(s@),
{
    let mut done: Vec<Vec<char>> = Vec::new();
    let mut cur: Vec<char> = Vec::new();
    let mut i: usize = 0;
    while i < s.len()
        invariant
            i <= s.len(),
            (done.deep_view(), cur@) == lines_upto(s@, i as int),
        decreases s.len() - i,
    {
        let ghost old_done = done.deep_view();
        let ghost old_cur = cur@;
        if s[i] == '\n' {
            let n = cur.len();
            if n > 0 && cur[n - 1] == '\r' {
                cur.pop();
            }
            proof {
                assert(cur@ =~= strip_cr(old_cur));
            }
            done.push(cur);
            cur = Vec::new();
            proof {
                assert(done.deep_view() =~~= old_done.push(strip_cr(old_cur)));
                assert(cur@ =~= Seq::<char>::empty());
            }
        } else {
            cur.push(s[i]);
            proof {
                assert(done.deep_view() =~= old_done);
            }
        }
        i = i + 1;
    }
    let ghost old_done = done.deep_view();
    let ghost old_cur = cur@;
    if cur.len() > 0 {
        done.push(cur);
        proof {
            assert(done.deep_view() =~~= old_done.push(old_cur));
        }
    }
    done
}

/// First position at or after `i` that holds `c`.
pub open spec fn find_char_from(s: Seq<char>, c: char, i: int) -> Option<int>
    decreases s.len() - i,
{
    if i < 0 || i >= s.len() {
        None
    } else if s[i] == c {
        Some(i)
    } else {
        find_char_from(s, c, i + 1)
    }
}

/// `str::find` with a `char` pattern.
pub open spec fn find_char(s: Seq<char>, c: char) -> Option<int> {
    find_char_from(s, c, 0)
}

pub fn find_char_in(s: &Vec<char>, c: char) -> (res: Option<usize>)
    ensures
        match res {
            Some(k) => find_char(s@, c) == Some(k as int),
            None => find_char(s@, c) is None,
        },
{
    let mut i: usize = 0;
    while i < s.len()
        invariant
            i <= s.len(),
            find_char(s@, c) == find_char_from(s@, c, i as int),
        decreases s.len() - i,
    {
        if s[i] == c {
            return Some(i);
        }
        i = i + 1;
    }
    None
}

/// Whether `p` occurs in `s` at position `k`.
pub open spec fn occurs_at(s: Seq<char>, p: Seq<char>, k: int) -> bool {
    0 <= k && k + p.len() <= s.len() && s.subrange(k, k + p.len()) == p
}

/// First position at or after `i` where `p` occurs.
pub open spec fn find_seq_from(s: Seq<char>, p: Seq<char>, i: int) -> Option<int>
    decreases s.len() + 1 - i,
{
    if i < 0 || i + p.len() > s.len() {
        None
    } else if occurs_at(s, p, i) {
        Some(i)
    } else {
        find_seq_from(s, p, i + 1)
    }
}

/// `str::find` with a string pattern.
pub open spec fn find_seq(s: Seq<char>, p: Seq<char>) -> Option<int> {
    find_seq_from(s, p, 0)
}

/// `str::contains` with a string pattern.
pub open spec fn contains_seq(s: Seq<char>, p: Seq<char>) -> bool {
    find_seq(s, p) is Some
}

pub open spec fn starts_with(s: Seq<char>, p: Seq<char>) -> bool {
    occurs_at(s, p, 0)
}

pub open spec fn ends_with(s: Seq<char>, p: Seq<char>) -> bool {
    occurs_at(s, p, s.len() - p.len())
}

pub fn occurs_at_exec(s: &Vec<char>, p: &Vec<char>, k: usize) -> (b: bool)
    ensures
        b == occurs_at(s@, p@, k as int),
{
    if k > s.len() || p.len() > s.len() - k {
        return false;
    }
    let mut j: usize = 0;
    while j < p.len()
        invariant
            j <= p.len(),
            k + p.len() <= s.len(),
            s@.subrange(k as int, k + j) == p@.subrange(0, j as int),
        decreases p.len() - j,
    {
        if s[k + j] != p[j] {
            proof {
                assert(s@.subrange(k as int, k + p.len())[j as int] != p@[j as int]);
            }
            return false;
        }
        proof {
            assert(s@.subrange(k as int, k + j + 1) =~= p@.subrange(0, j + 1));
        }
        j = j + 1;
    }
    proof {
        assert(p@.subrange(0, p.len() as int) =~= p@);
    }
    true
}

pub fn find_seq_in(s: &Vec<char>, p: &Vec<char>) -> (res: Option<usize>)
    ensures
        match res {
            Some(k) => find_seq(s@, p@) == Some(k as int),
            None => find_seq(s@, p@) is None,
        },
{
    let mut i: usize = 0;
    loop
        invariant
            i <= s.len(),
            find_seq(s@, p@) == find_seq_from(s@, p@, i as int),
        decreases s.len() - i,
    {
        if p.len() > s.len() - i {
            return None;
        }
        if occurs_at_exec(s, p, i) {
            return Some(i);
        }
        if i == s.len() {
            proof {
                assert(s@.subrange(i as int, i + p.len()) =~= p@);
            }
            return None;
        }
        i = i + 1;
    }
}

pub fn contains_exec(s: &Vec<char>, p: &Vec<char>) -> (b: bool)
    ensures
        b == contains_seq(s@, p@),
{
    find_seq_in(s, p).is_some()
}

pub fn starts_with_exec(s: &Vec<char>, p: &Vec<char>) -> (b: bool)
    ensures
        b == starts_with(s@, p@),
{
    occurs_at_exec(s, p, 0)
}

pub fn ends_with_exec(s: &Vec<char>, p: &Vec<char>) -> (b: bool)
    ensures
        b == ends_with(s@, p@),
{
    if p.len() > s.len() {
        return false;
    }
    occurs_at_exec(s, p, s.len() - p.len())
}

/// The characters of a string slice.
pub fn chars_of(s: &str) -> (res: Vec<char>)
    ensures
        res@ == s@,
{
    broadcast use vstd::string::group_string_axioms;
    let mut res: Vec<char> = Vec::new();
    for c in it: s.chars()
        invariant
            res@ == it.seq().take(it.index()),
            it.seq() == s@,
    {
        res.push(c);
    }
    proof {
        assert(res@ =~= s@.take(s@.len() as int));
    }
    res
}

/// A `String` holding the given characters.
#[verifier::external_body]
pub(crate) fn string_of(v: &Vec<char>) -> (res: String)
    ensures
        res@ == v@,
{
    v.iter().collect()
}

/// The characters of a `String`.
pub fn chars_of_string(s: &String) -> (res: Vec<char>)
    ensures
        res@ == s@,
{
    chars_of(s.as_str())
}

pub fn eq_chars(a: &Vec<char>, b: &Vec<char>) -> (r: bool)
    ensures
        r == (a@ == b@),
{
    if a.len() != b.len() {
        return false;
    }
    let r = occurs_at_exec(a, b, 0);
    proof {
        assert(a@.subrange(0, a.len() as int) =~= a@);
    }
    r
}

pub fn eq_str(a: &Vec<char>, b: &str) -> (r: bool)
    ensures
        r == (a@ == b@),
{
    let bc = chars_of(b);
    eq_chars(a, &bc)
}


/// What `str::to_lowercase` gives for a text (Unicode lowercase mapping).
pub uninterp spec fn unicode_lowercase(s: Seq<char>) -> Seq<char>;

/// What `str::to_uppercase` gives for a text (Unicode uppercase mapping).
pub uninterp spec fn unicode_uppercase(s: Seq<char>) -> Seq<char>;

/// Runs `str::to_lowercase`. The contract claims that the result is
/// `unicode_lowercase` of the argument and, for a text of ASCII characters
/// only, that each letter `A`-`Z` becomes `a`-`z` and every other character
/// stays; of other characters it claims nothing.
#[verifier::external_body]
pub(crate) fn to_lowercase(s: &Vec<char>) -> (res: Vec<char>)
    ensures
        res@ == unicode_lowercase(s@),
        is_ascii_text(s@) ==> res@ == ascii_lower_text(s@),
{
    let t: String = s.iter().collect();
    t.to_lowercase().chars().collect()
}

/// Runs `str::to_uppercase`. The contract claims that the result is
/// `unicode_uppercase` of the argument and, for a text of ASCII characters
/// only, that each letter `a`-`z` becomes `A`-`Z` and every other character
/// stays; of other characters it claims nothing.
#[verifier::external_body]
pub(crate) fn to_uppercase(s: &Vec<char>) -> (res: Vec<char>)
    ensures
        res@ == unicode_uppercase(s@),
        is_ascii_text(s@) ==> res@ == ascii_upper_text(s@),
{
    let t: String = s.iter().collect();
    t.to_uppercase().chars().collect()
}

pub open spec fn ascii_lower(c: char) -> char {
    if 'A' <= c && c <= 'Z' {
        ((c as u32) + 32) as char
    } else {
        c
    }
}

pub open spec fn ascii_upper(c: char) -> char {
    if 'a' <= c && c <= 'z' {
        ((c as u32) - 32) as char
    } else {
        c
    }
}

/// Whether every character of a text is an ASCII character.
pub open spec fn is_ascii_text(s: Seq<char>) -> bool {
    forall|i: int| 0 <= i < s.len() ==> (#[trigger] s[i] as u32) < 128
}

/// A text with its ASCII upper-case letters made lower-case.
pub open spec fn ascii_lower_text(s: Seq<char>) -> Seq<char> {
    Seq::new(s.len(), |i: int| ascii_lower(s[i]))
}

/// A text with its ASCII lower-case letters made upper-case.
pub open spec fn ascii_upper_text(s: Seq<char>) -> Seq<char> {
    Seq::new(s.len(), |i: int| ascii_upper(s[i]))
}

/// For ASCII text, lower-casing its upper-case or lower-case form gives the
/// same text as lower-casing it: names that differ only in ASCII case are
/// one name once lower-cased.
pub proof fn law_ascii_case_folding(s: Seq<char>)
    requires
        is_ascii_text(s),
    ensures
        is_ascii_text(ascii_upper_text(s)),
        is_ascii_text(ascii_lower_text(s)),
        ascii_lower_text(ascii_upper_text(s)) == ascii_lower_text(s),
        ascii_lower_text(ascii_lower_text(s)) == ascii_lower_text(s),
{
    assert forall|i: int| 0 <= i < s.len() implies (#[trigger] ascii_upper_text(s)[i] as u32) < 128
        && (ascii_lower_text(s)[i] as u32) < 128
        && ascii_lower(ascii_upper(s[i])) == ascii_lower(s[i])
        && ascii_lower(ascii_lower(s[i])) == ascii_lower(s[i]) by {
        let c = s[i];
        assert((c as u32) < 128);
    }
    assert(ascii_lower_text(ascii_upper_text(s)) =~= ascii_lower_text(s));
    assert(ascii_lower_text(ascii_lower_text(s)) =~= ascii_lower_text(s));
}

/// `str::eq_ignore_ascii_case`.
pub open spec fn eq_ignore_ascii_case(a: Seq<char>, b: Seq<char>) -> bool {
    a.len() == b.len() && forall|i: int| 0 <= i < a.len() ==> ascii_lower(#[trigger] a[i]) == ascii_lower(b[i])
}

pub fn ascii_lower_exec(c: char) -> (r: char)
    ensures
        r == ascii_lower(c),
{
    if 'A' <= c && c <= 'Z' {
        let v: u8 = (c as u8) + 32;
        v as char
    } else {
        c
    }
}

pub fn eq_ignore_ascii_case_exec(a: &Vec<char>, b: &Vec<char>) -> (r: bool)
    ensures
        r == eq_ignore_ascii_case(a@, b@),
{
    if a.len() != b.len() {
        return false;
    }
    let mut i: usize = 0;
    while i < a.len()
        invariant
            i <= a.len() == b.len(),
            forall|k: int| 0 <= k < i ==> ascii_lower(#[trigger] a@[k]) == ascii_lower(b@[k]),
        decreases a.len() - i,
    {
        if ascii_lower_exec(a[i]) != ascii_lower_exec(b[i]) {
            return false;
        }
        i = i + 1;
    }
    true
}

pub open spec fn digit_char(d: nat) -> char {
    if d == 0 { '0' } else if d == 1 { '1' } else if d == 2 { '2' } else if d == 3 { '3' }
    else if d == 4 { '4' } else if d == 5 { '5' } else if d == 6 { '6' } else if d == 7 { '7' }
    else if d == 8 { '8' } else if d == 9 { '9' } else if d == 10 { 'a' } else if d == 11 { 'b' }
    else if d == 12 { 'c' } else if d == 13 { 'd' } else if d == 14 { 'e' } else { 'f' }
}

/// The digits of `n` in base `b` (2..=16), lower-case, without leading zeros.
pub open spec fn digits(n: nat, b: nat) -> Seq<char>
    decreases n,
{
    if b < 2 || n < b {
        seq![digit_char(n)]
    } else {
        proof {
            vstd::arithmetic::div_mod::lemma_div_decreases(n as int, b as int);
        }
        digits(n / b, b).push(digit_char(n % b))
    }
}

/// `{}` formatting of an integer.
pub open spec fn decimal(i: int) -> Seq<char> {
    if i < 0 {
        seq!['-'] + digits((-i) as nat, 10)
    } else {
        digits(i as nat, 10)
    }
}

/// `{:0w}` style zero padding to at least `w` characters.
pub open spec fn pad_zeros(s: Seq<char>, w: nat) -> Seq<char>
    decreases w,
{
    if s.len() >= w || w == 0 {
        s
    } else {
        seq!['0'] + pad_zeros(s, (w - 1) as nat)
    }
}

pub fn digit_char_exec(d: u64) -> (c: char)
    requires
        d < 16,
    ensures
        c == digit_char(d as nat),
{
    if d == 0 { '0' } else if d == 1 { '1' } else if d == 2 { '2' } else if d == 3 { '3' }
    else if d == 4 { '4' } else if d == 5 { '5' } else if d == 6 { '6' } else if d == 7 { '7' }
    else if d == 8 { '8' } else if d == 9 { '9' } else if d == 10 { 'a' } else if d == 11 { 'b' }
    else if d == 12 { 'c' } else if d == 13 { 'd' } else if d == 14 { 'e' } else { 'f' }
}

pub fn digits_exec(n: u64, b: u64) -> (res: Vec<char>)
    requires
        2 <= b <= 16,
    ensures
        res@ == digits(n as nat, b as nat),
    decreases n,
{
    if n < b {
        let mut v = Vec::new();
        v.push(digit_char_exec(n));
        v
    } else {
        assert(n / b < n) by (nonlinear_arith)
            requires
                n >= b,
                b >= 2,
        ;
        let mut v = digits_exec(n / b, b);
        v.push(digit_char_exec(n % b));
        v
    }
}

/// The base-`b` digits of a `u128`.
pub fn digits_u128_exec(n: u128, b: u128) -> (res: Vec<char>)
    requires
        2 <= b <= 16,
    ensures
        res@ == digits(n as nat, b as nat),
    decreases n,
{
    if n < b {
        let mut v = Vec::new();
        v.push(digit_char_exec(n as u64));
        v
    } else {
        assert(n / b < n) by (nonlinear_arith)
            requires
                n >= b,
                b >= 2,
        ;
        let mut v = digits_u128_exec(n / b, b);
        v.push(digit_char_exec((n % b) as u64));
        v
    }
}

/// `{}` formatting of a `u128`.
pub fn fmt_u128(n: u128) -> (res: Vec<char>)
    ensures
        res@ == decimal(n as int),
{
    digits_u128_exec(n, 10)
}

/// `{}` formatting of a signed integer.
pub fn fmt_i64(i: i64) -> (res: Vec<char>)
    ensures
        res@ == decimal(i as int),
{
    if i < 0 {
        let m: u64 = if i == i64::MIN { 9223372036854775808u64 } else { (-i) as u64 };
        let d = digits_exec(m, 10);
        let mut v = Vec::new();
        v.push('-');
        let mut k: usize = 0;
        while k < d.len()
            invariant
                k <= d.len(),
                v@ == seq!['-'] + d@.subrange(0, k as int),
            decreases d.len() - k,
        {
            v.push(d[k]);
            proof {
                assert(seq!['-'] + d@.subrange(0, k + 1) =~= (seq!['-'] + d@.subrange(0, k as int)).push(d@[k as int]));
            }
            k = k + 1;
        }
        proof {
            assert(d@.subrange(0, d.len() as int) =~= d@);
        }
        v
    } else {
        digits_exec(i as u64, 10)
    }
}

/// `{}` formatting of an unsigned integer.
pub fn fmt_u64(n: u64) -> (res: Vec<char>)
    ensures
        res@ == decimal(n as int),
{
    digits_exec(n, 10)
}

/// `{:x}` formatting.
pub fn fmt_hex(n: u64) -> (res: Vec<char>)
    ensures
        res@ == digits(n as nat, 16),
{
    digits_exec(n, 16)
}

/// Appends the characters of `b` to `a`.
pub fn append(a: &mut Vec<char>, b: &Vec<char>)
    ensures
        final(a)@ == old(a)@ + b@,
{
    let mut k: usize = 0;
    let ghost a0 = a@;
    while k < b.len()
        invariant
            k <= b.len(),
            a@ == a0 + b@.subrange(0, k as int),
        decreases b.len() - k,
    {
        a.push(b[k]);
        proof {
            assert(a0 + b@.subrange(0, k + 1) =~= (a0 + b@.subrange(0, k as int)).push(b@[k as int]));
        }
        k = k + 1;
    }
    proof {
        assert(b@.subrange(0, b.len() as int) =~= b@);
    }
}

/// Appends the characters of a string slice to `a`.
pub fn append_str(a: &mut Vec<char>, b: &str)
    ensures
        final(a)@ == old(a)@ + b@,
{
    let bc = chars_of(b);
    append(a, &bc);
}


/// A `String` holding the text of a string slice.
pub fn string_from(s: &str) -> (res: String)
    ensures
        res@ == s@,
{
    let v = chars_of(s);
    string_of(&v)
}


/// Whether a list of texts holds `x`.
pub fn contains_text(v: &Vec<Vec<char>>, x: &Vec<char>) -> (b: bool)
    ensures
        b == v.deep_view().contains(x@),
{
    let mut i: usize = 0;
    while i < v.len()
        invariant
            i <= v.len(),
            forall|k: int| 0 <= k < i ==> v.deep_view()[k] != x@,
        decreases v.len() - i,
    {
        proof {
            assert(v.deep_view()[i as int] =~= v@[i as int]@);
        }
        if eq_chars(&v[i], x) {
            return true;
        }
        i = i + 1;
    }
    false
}

/// Whether a list of texts holds the text of a string slice.
pub fn contains_str(v: &Vec<Vec<char>>, x: &str) -> (b: bool)
    ensures
        b == v.deep_view().contains(x@),
{
    let xc = chars_of(x);
    contains_text(v, &xc)
}

/// Appends `x` to a list of texts.
pub fn push_text(v: &mut Vec<Vec<char>>, x: Vec<char>)
    ensures
        final(v).deep_view() == old(v).deep_view().push(x@),
{
    let ghost old_v = v.deep_view();
    v.push(x);
    proof {
        assert(v.deep_view() =~~= old_v.push(x@));
    }
}

/// The value of a digit character in the given radix, as `char::to_digit`.
pub open spec fn digit_value(c: char, radix: nat) -> Option<nat> {
    let v: nat = if '0' <= c && c <= '9' {
        (c as nat) - ('0' as nat)
    } else if 'a' <= c && c <= 'z' {
        (c as nat) - ('a' as nat) + 10
    } else if 'A' <= c && c <= 'Z' {
        (c as nat) - ('A' as nat) + 10
    } else {
        99
    } as nat;
    if v < radix {
        Some(v)
    } else {
        None
    }
}

/// The value of a non-empty run of digits, or `None` if a character is not a
/// digit of the radix.
pub open spec fn digits_value(s: Seq<char>, radix: nat) -> Option<nat>
    decreases s.len(),
{
    if s.len() == 0 {
        Some(0)
    } else {
        match (digits_value(s.drop_last(), radix), digit_value(s.last(), radix)) {
            (Some(h), Some(d)) => Some(h * radix + d),
            _ => None,
        }
    }
}

/// `i64::from_str_radix(s, radix).ok()` (and `str::parse::<i64>` for radix 10):
/// an optional sign, at least one digit, and a value within `i64`.
pub open spec fn parse_i64(s: Seq<char>, radix: nat) -> Option<int> {
    let neg = s.len() > 0 && s[0] == '-';
    let body = if s.len() > 0 && (s[0] == '+' || s[0] == '-') {
        s.drop_first()
    } else {
        s
    };
    if body.len() == 0 {
        None
    } else {
        match digits_value(body, radix) {
            Some(v) => {
                let x: int = if neg {
                    -v
                } else {
                    v as int
                };
                if i64::MIN <= x <= i64::MAX {
                    Some(x)
                } else {
                    None
                }
            },
            None => None,
        }
    }
}

/// `u64::from_str_radix(s, radix).ok()` (and `str::parse::<u64>` for radix
/// 10): an optional `+`, at least one digit, and a value within `u64`.
pub open spec fn parse_u64(s: Seq<char>, radix: nat) -> Option<int> {
    let body = if s.len() > 0 && s[0] == '+' {
        s.drop_first()
    } else {
        s
    };
    if body.len() == 0 {
        None
    } else {
        match digits_value(body, radix) {
            Some(v) => if v <= u64::MAX {
                Some(v as int)
            } else {
                None
            },
            None => None,
        }
    }
}

proof fn lemma_digits_value_mono(s: Seq<char>, radix: nat, k: int)
    requires
        0 <= k <= s.len(),
        radix >= 2,
        digits_value(s, radix) is Some,
    ensures
        digits_value(s.subrange(0, k), radix) is Some,
        digits_value(s.subrange(0, k), radix)->0 <= digits_value(s, radix)->0,
    decreases s.len(),
{
    if k < s.len() {
        assert(s.drop_last() =~= s.subrange(0, s.len() - 1));
        lemma_digits_value_mono(s.drop_last(), radix, k);
        assert(s.drop_last().subrange(0, k) =~= s.subrange(0, k));
        let h = digits_value(s.drop_last(), radix)->0;
        let d = digit_value(s.last(), radix)->0;
        assert(h <= h * radix + d) by (nonlinear_arith)
            requires
                radix >= 2,
        ;
    } else {
        assert(s.subrange(0, k) =~= s);
    }
}

pub fn digit_value_exec(c: char, radix: u32) -> (r: Option<u32>)
    requires
        radix <= 36,
    ensures
        match r {
            Some(v) => digit_value(c, radix as nat) == Some(v as nat),
            None => digit_value(c, radix as nat) is None,
        },
{
    let v: u32 = if '0' <= c && c <= '9' {
        (c as u32) - ('0' as u32)
    } else if 'a' <= c && c <= 'z' {
        (c as u32) - ('a' as u32) + 10
    } else if 'A' <= c && c <= 'Z' {
        (c as u32) - ('A' as u32) + 10
    } else {
        99
    };
    if v < radix {
        Some(v)
    } else {
        None
    }
}

/// The value of `s[from..]` as digits of the radix, saturated above `cap`:
/// `(Some(v), _)` where all are digits, and the flag says the value exceeds `cap`.
fn digits_value_capped(s: &Vec<char>, from: usize, radix: u32, cap: u128) -> (res: (
    Option<u128>,
    bool,
))
    requires
        from <= s.len(),
        2 <= radix <= 36,
        cap < 0x1_0000_0000_0000_0000_0000,
    ensures
        match res.0 {
            Some(v) => {
                &&& digits_value(s@.subrange(from as int, s.len() as int), radix as nat) is Some
                &&& (res.1 <==> digits_value(s@.subrange(from as int, s.len() as int), radix as nat)->0 > cap)
                &&& (!res.1 ==> v == digits_value(s@.subrange(from as int, s.len() as int), radix as nat)->0)
            },
            None => digits_value(s@.subrange(from as int, s.len() as int), radix as nat) is None,
        },
{
    let mut acc: u128 = 0;
    let mut over = false;
    let mut i = from;
    while i < s.len()
        invariant
            from <= i <= s.len(),
            2 <= radix <= 36,
            cap < 0x1_0000_0000_0000_0000_0000,
            digits_value(s@.subrange(from as int, i as int), radix as nat) is Some,
            over <==> digits_value(s@.subrange(from as int, i as int), radix as nat)->0 > cap,
            !over ==> acc == digits_value(s@.subrange(from as int, i as int), radix as nat)->0,
        decreases s.len() - i,
    {
        let ghost pre = s@.subrange(from as int, i as int);
        let ghost next = s@.subrange(from as int, i + 1);
        proof {
            assert(next.drop_last() =~= pre);
            assert(next.last() == s@[i as int]);
        }
        match digit_value_exec(s[i], radix) {
            None => {
                proof {
                    assert(digits_value(next, radix as nat) is None);
                    let whole = s@.subrange(from as int, s.len() as int);
                    if digits_value(whole, radix as nat) is Some {
                        lemma_digits_value_mono(whole, radix as nat, i + 1 - from);
                        assert(whole.subrange(0, i + 1 - from) =~= next);
                    }
                }
                return (None, false);
            },
            Some(d) => {
                let ghost h = digits_value(pre, radix as nat)->0;
                proof {
                    assert(digits_value(next, radix as nat) == Some(h * radix as nat + d as nat));
                    assert(h <= h * radix as nat + d as nat) by (nonlinear_arith)
                        requires
                            radix >= 2,
                    ;
                }
                if !over {
                    proof {
                        assert(acc * (radix as u128) + (d as u128) <= cap * 36 + 36) by (nonlinear_arith)
                            requires
                                acc <= cap,
                                radix <= 36,
                                d < radix,
                        ;
                    }
                    let nv = acc * (radix as u128) + (d as u128);
                    if nv > cap {
                        over = true;
                    } else {
                        acc = nv;
                    }
                }
            },
        }
        i = i + 1;
    }
    (Some(acc), over)
}

/// `i64::from_str_radix(s, radix).ok()`.
pub fn parse_i64_exec(s: &Vec<char>, radix: u32) -> (res: Option<i64>)
    requires
        2 <= radix <= 36,
    ensures
        match res {
            Some(v) => parse_i64(s@, radix as nat) == Some(v as int),
            None => parse_i64(s@, radix as nat) is None,
        },
{
    let n = s.len();
    let signed = n > 0 && (s[0] == '+' || s[0] == '-');
    let neg = n > 0 && s[0] == '-';
    let from: usize = if signed { 1 } else { 0 };
    proof {
        let body = if s@.len() > 0 && (s@[0] == '+' || s@[0] == '-') { s@.drop_first() } else { s@ };
        assert(body =~= s@.subrange(from as int, n as int));
    }
    if from >= n {
        return None;
    }
    let cap: u128 = if neg { 9223372036854775808u128 } else { 9223372036854775807u128 };
    let (v, over) = digits_value_capped(s, from, radix, cap);
    match v {
        None => None,
        Some(x) => {
            if over {
                None
            } else if neg {
                if x == 9223372036854775808u128 {
                    Some(i64::MIN)
                } else {
                    Some(-(x as i64))
                }
            } else {
                Some(x as i64)
            }
        },
    }
}

/// `u64::from_str_radix(s, radix).ok()`.
pub fn parse_u64_exec(s: &Vec<char>, radix: u32) -> (res: Option<u64>)
    requires
        2 <= radix <= 36,
    ensures
        match res {
            Some(v) => parse_u64(s@, radix as nat) == Some(v as int),
            None => parse_u64(s@, radix as nat) is None,
        },
{
    let n = s.len();
    let from: usize = if n > 0 && s[0] == '+' { 1 } else { 0 };
    proof {
        let body = if s@.len() > 0 && s@[0] == '+' { s@.drop_first() } else { s@ };
        assert(body =~= s@.subrange(from as int, n as int));
    }
    if from >= n {
        return None;
    }
    let (v, over) = digits_value_capped(s, from, radix, 18446744073709551615u128);
    match v {
        None => None,
        Some(x) => if over {
            None
        } else {
            Some(x as u64)
        },
    }
}


pub proof fn lemma_find_char_bound(s: Seq<char>, c: char, i: int)
    ensures
        find_char_from(s, c, i) matches Some(k) ==> 0 <= i <= k < s.len() && s[k] == c,
    decreases s.len() - i,
{
    if 0 <= i < s.len() && s[i] != c {
        lemma_find_char_bound(s, c, i + 1);
    }
}

pub proof fn lemma_find_seq_bound(s: Seq<char>, p: Seq<char>, i: int)
    ensures
        find_seq_from(s, p, i) matches Some(k) ==> 0 <= i <= k && k + p.len() <= s.len(),
    decreases s.len() + 1 - i,
{
    if 0 <= i && i + p.len() <= s.len() && !occurs_at(s, p, i) {
        lemma_find_seq_bound(s, p, i + 1);
    }
}


/// `[String]::join`: the pieces with `sep` between each two of them.
pub open spec fn join(ls: Seq<Seq<char>>, sep: Seq<char>) -> Seq<char>
    decreases ls.len(),
{
    if ls.len() == 0 {
        Seq::empty()
    } else if ls.len() == 1 {
        ls[0]
    } else {
        join(ls.drop_last(), sep) + sep + ls.last()
    }
}

pub fn join_exec(v: &Vec<Vec<char>>, sep: &str) -> (res: Vec<char>)
    ensures
        res@ == join(v.deep_view(), sep@),
{
    let mut out: Vec<char> = Vec::new();
    let mut i: usize = 0;
    while i < v.len()
        invariant
            i <= v.len(),
            out@ == join(v.deep_view().take(i as int), sep@),
        decreases v.len() - i,
    {
        let ghost pre = v.deep_view().take(i as int);
        if i > 0 {
            append_str(&mut out, sep);
        }
        append(&mut out, &v[i]);
        proof {
            let t = v.deep_view().take(i + 1);
            assert(t.drop_last() =~= pre);
            assert(t.last() == v[i as int]@);
            if i == 0 {
                assert(out@ =~= v[0]@);
            }
        }
        i = i + 1;
    }
    proof {
        assert(v.deep_view().take(v.len() as int) =~= v.deep_view());
    }
    out
}

} // verus!
