//! Line recognisers: the regular expressions of the linters, the fixer and
//! the auditor are run by the `regex` crate.
use vstd::prelude::*;

verus! {

/// What `regex::Regex::new(pattern)` and `Regex::captures(text)` give: `None`
/// when the pattern does not compile or does not match, else the text of each
/// capture group, group 0 being the whole match and a group that took no part
/// in the match being empty.
pub uninterp spec fn regex_captures(pattern: Seq<char>, text: Seq<char>) -> Option<Seq<Seq<char>>>;

/// Runs `regex::Regex::captures` for `pattern` over `text`. The contract claims
/// only that the result is `regex_captures` of the two arguments, that is, that
/// the outcome depends on the pattern and the text alone; what the regex engine
/// matches is not restated here.
#[verifier::external_body]
pub(crate) fn captures(pattern: &str, text: &Vec<char>) -> (res: Option<Vec<Vec<char>>>)
    ensures
        res.deep_view() == regex_captures(pattern@, text@),
{
    let hay: String = text.iter().collect();
    let re = regex::Regex::new(pattern).ok()?;
    let caps = re.captures(&hay)?;
    Some(caps.iter().map(|m| m.map_or(Vec::new(), |m| m.as_str().chars().collect())).collect())
}

/// Capture group `i`, or the empty text where there is none.
pub open spec fn group(caps: Seq<Seq<char>>, i: int) -> Seq<char> {
    if 0 <= i < caps.len() {
        caps[i]
    } else {
        Seq::empty()
    }
}

pub fn group_of(caps: &Vec<Vec<char>>, i: usize) -> (res: Vec<char>)
    ensures
        res@ == group(caps.deep_view(), i as int),
{
    if i < caps.len() {
        let r = caps[i].clone();
        proof {
            assert(r@ =~= caps.deep_view()[i as int]);
        }
        r
    } else {
        Vec::new()
    }
}

/// Whether the pattern matches somewhere in the text.
pub open spec fn is_match(pattern: Seq<char>, text: Seq<char>) -> bool {
    regex_captures(pattern, text) is Some
}

pub fn is_match_exec(pattern: &str, text: &Vec<char>) -> (b: bool)
    ensures
        b == is_match(pattern@, text@),
{
    captures(pattern, text).is_some()
}

} // verus!
