//! Rules for what may be given on the command line.

use regex::Regex;
use vstd::prelude::*;

verus! {

/// The pattern of an acceptable name: one or more lower-case letters,
/// digits, underscores or hyphens, and nothing else.
pub const NAME_PATTERN: &'static str = "^[a-z0-9_-]+$";

/// Whether the regular expression `pattern` matches somewhere in `haystack`,
/// or `None` where `pattern` is refused as a regular expression.
pub uninterp spec fn regex_match(pattern: Seq<char>, haystack: Seq<char>) -> Option<bool>;

/// Compiles `pattern` with `regex::Regex::new` and searches `haystack` with
/// `Regex::is_match`.
///
/// Trusted: the answer depends on the two texts alone. Nothing is claimed of
/// which texts match.
#[verifier::external_body]
fn pattern_matches(pattern: &str, haystack: &str) -> (matched: Option<bool>)
    ensures
        matched == regex_match(pattern@, haystack@),
{
    match Regex::new(pattern) {
        Ok(regex) => Some(regex.is_match(haystack)),
        Err(_) => None,
    }
}

/// What the validation of a name yields, given whether the name pattern was
/// found to match it: the name itself, or the reason for its refusal.
pub open spec fn name_verdict(name: Seq<char>, matched: Option<bool>) -> Result<
    Seq<char>,
    Seq<char>,
> {
    if name.len() == 0 {
        Err("Cannot be empty"@)
    } else if matched == Some(true) {
        Ok(name)
    } else {
        Err("Must contain only lowercase letters, underscores, and hyphens"@)
    }
}

/// The texts of a result that holds a text either way.
pub open spec fn texts(result: Result<String, String>) -> Result<Seq<char>, Seq<char>> {
    match result {
        Ok(text) => Ok(text@),
        Err(text) => Err(text@),
    }
}

/// Accepts or refuses `name`, given what matching it against the name
/// pattern gave.
pub fn judge_name(name: &str, matched: Option<bool>) -> (result: Result<String, String>)
    ensures
        texts(result) == name_verdict(name@, matched),
{
    if name.is_empty() {
        return Err("Cannot be empty".to_string());
    }
    match matched {
        Some(true) => Ok(name.to_string()),
        _ => Err("Must contain only lowercase letters, underscores, and hyphens".to_string()),
    }
}

/// Validates that a name is not empty and matches `NAME_PATTERN`.
pub fn validate_name(name: &str) -> (result: Result<String, String>)
    ensures
        texts(result) == name_verdict(name@, regex_match(NAME_PATTERN@, name@)),
{
    judge_name(name, pattern_matches(NAME_PATTERN, name))
}

} // verus!
