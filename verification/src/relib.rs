//! Regular-expression work done by the regex crate behind trusted wrappers:
//! matching a pattern, extracting one capture group, and replacing the first
//! match.
use vstd::prelude::*;

verus! {

/// What [`regex_is_match`] yields: whether the pattern matches the text, or
/// `None` when the pattern text is invalid.
pub uninterp spec fn re_is_match(pattern: Seq<char>, text: Seq<char>) -> Option<bool>;

/// What [`regex_capture`] yields: the text of the given capture group of the
/// first match, when the pattern is valid, it matches, and the group
/// participated.
pub uninterp spec fn re_capture(pattern: Seq<char>, text: Seq<char>, group: int) -> Option<
    Seq<char>,
>;

/// What [`regex_replace_first`] yields: the text with the first match of the
/// pattern replaced by the replacement (the text unchanged when the pattern
/// is invalid or does not match).
pub uninterp spec fn re_replace_first(pattern: Seq<char>, text: Seq<char>, rep: Seq<char>) -> Seq<
    char,
>;

/// Relies on `regex::Regex::new` and `Regex::is_match`: whether a pattern
/// compiles, and whether it matches, are functions of the two texts alone.
#[verifier::external_body]
pub fn regex_is_match(pattern: &str, text: &str) -> (r: Option<bool>)
    ensures
        r == re_is_match(pattern@, text@),
{
    match regex::Regex::new(pattern) {
        Ok(re) => Some(re.is_match(text)),
        Err(_) => None,
    }
}

/// Relies on `regex::Regex::new`, `Regex::captures` and `Captures::get`: the
/// first match and its capture groups are functions of the texts and the
/// group index alone.
#[verifier::external_body]
pub fn regex_capture(pattern: &str, text: &str, group: usize) -> (r: Option<String>)
    ensures
        match r {
            Some(s) => re_capture(pattern@, text@, group as int) == Some(s@),
            None => re_capture(pattern@, text@, group as int) is None,
        },
{
    let re = match regex::Regex::new(pattern) {
        Ok(re) => re,
        Err(_) => {
            return None;
        },
    };
    let caps = re.captures(text)?;
    caps.get(group).map(|m| m.as_str().to_string())
}

/// Relies on `regex::Regex::replace`: the replacement of the first match is a
/// function of the three texts alone.
#[verifier::external_body]
pub fn regex_replace_first(pattern: &str, text: &str, rep: &str) -> (r: String)
    ensures
        r@ == re_replace_first(pattern@, text@, rep@),
{
    match regex::Regex::new(pattern) {
        Ok(re) => re.replace(text, rep).to_string(),
        Err(_) => text.to_string(),
    }
}

} // verus!
