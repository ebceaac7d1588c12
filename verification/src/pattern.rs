//! The one place where the regular-expression engine is called.
//!
//! Both input formats are recognised by a fixed pattern with named groups.
//! What the engine captures for a pattern and a line is a function of the two
//! texts alone; it is given a name here, and the parser's contracts are stated
//! over that name.

use vstd::prelude::*;

verus! {

/// What the engine captures: `None` where `pattern` is not a valid pattern or
/// matches nowhere in `haystack`; otherwise, for the leftmost match, the text
/// captured by the group of each name in `names`, in the order of `names`,
/// with `None` for a group that took no part in the match.
pub uninterp spec fn named_groups(
    pattern: Seq<char>,
    names: Seq<Seq<char>>,
    haystack: Seq<char>,
) -> Option<Seq<Option<Seq<char>>>>;

/// Compiles `pattern` with `regex::Regex::new`, searches `haystack` with
/// `Regex::captures`, and reads each group of `names` with `Captures::name`
/// and `Match::as_str`.
///
/// Trusted: that the outcome is `named_groups` of the three texts, and that a
/// match yields exactly one entry per requested name. A pattern that the
/// engine rejects yields `None`, like a pattern that does not match.
#[verifier::external_body]
pub(crate) fn capture_named(pattern: &str, names: &[&str], haystack: &str) -> (found: Option<
    Vec<Option<String>>,
>)
    ensures
        found.deep_view() == named_groups(pattern@, names.deep_view(), haystack@),
        found matches Some(groups) ==> groups.len() == names.len(),
{
    let compiled = regex::Regex::new(pattern).ok()?;
    let captures = compiled.captures(haystack)?;
    Some(names.iter().map(|name| captures.name(name).map(|m| m.as_str().to_string())).collect())
}

} // verus!
