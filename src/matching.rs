//! Regular-expression searches over rendered results.
use vstd::prelude::*;

verus! {

/// The text of capture group 1 in the leftmost match of `pattern` in `text`;
/// `None` when the pattern does not compile, nothing matches, or the group
/// takes no part in the match.
pub uninterp spec fn regex_group(pattern: Seq<char>, text: Seq<char>) -> Option<Seq<char>>;

/// Whether `pattern` compiles and matches somewhere in `text`.
pub uninterp spec fn regex_found(pattern: Seq<char>, text: Seq<char>) -> bool;

/// Relies on `regex::Regex::new`, `Regex::captures` and `Captures::get`: the
/// first group of the leftmost match, which depends on the pattern and the
/// text alone.
#[verifier::external_body]
pub(crate) fn first_group(pattern: &str, text: &str) -> (r: Option<String>)
    ensures
        r is Some <==> regex_group(pattern@, text@) is Some,
        r is Some ==> r->0@ == regex_group(pattern@, text@)->0,
{
    let re = match regex::Regex::new(pattern) {
        Ok(re) => re,
        Err(_) => return None,
    };
    let caps = re.captures(text)?;
    let m = caps.get(1)?;
    Some(m.as_str().to_string())
}

/// Relies on `regex::Regex::new` and `Regex::is_match`: whether the pattern
/// matches anywhere, which depends on the pattern and the text alone.
#[verifier::external_body]
pub(crate) fn is_found(pattern: &str, text: &str) -> (r: bool)
    ensures
        r == regex_found(pattern@, text@),
{
    match regex::Regex::new(pattern) {
        Ok(re) => re.is_match(text),
        Err(_) => false,
    }
}

} // verus!
