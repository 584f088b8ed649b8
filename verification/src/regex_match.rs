//! Regular-expression matching, done by the `regex` crate.
use vstd::prelude::*;

verus! {

/// The capture groups of the first match of `pattern` in `text`, as the
/// `regex` crate finds them: `None` where the pattern does not compile,
/// `Some(None)` where it does not match, else the text of each group
/// (group 0 is the whole match), `None` for a group that took no part.
pub uninterp spec fn regex_captures(pattern: Seq<char>, text: Seq<char>) -> Option<
    Option<Seq<Option<Seq<char>>>>,
>;

pub open spec fn opt_views(v: Seq<Option<String>>) -> Seq<Option<Seq<char>>> {
    v.map_values(
        |o: Option<String>|
            match o {
                Some(s) => Some(s@),
                None => None,
            },
    )
}

/// Compiles `pattern` with `regex::Regex::new` and takes the first match's
/// groups with `Regex::captures`.
///
/// Trusted: the result is the crate's answer for these two strings alone
/// (`regex_captures`); which strings match is not restated.
#[verifier::external_body]
pub fn captures(pattern: &str, text: &str) -> (r: Option<Option<Vec<Option<String>>>>)
    ensures
        match r {
            None => regex_captures(pattern@, text@) is None,
            Some(None) => regex_captures(pattern@, text@) == Some(
                None::<Seq<Option<Seq<char>>>>,
            ),
            Some(Some(groups)) => regex_captures(pattern@, text@) == Some(
                Some(opt_views(groups@)),
            ),
        },
{
    regex::Regex::new(pattern).ok().map(
        |re|
            re.captures(text).map(
                |caps| caps.iter().map(|m| m.map(|m| m.as_str().to_string())).collect(),
            ),
    )
}

/// The group at `i` of a match, where the match has it.
pub open spec fn group(groups: Seq<Option<Seq<char>>>, i: int) -> Option<Seq<char>> {
    if 0 <= i < groups.len() {
        groups[i]
    } else {
        None
    }
}

pub fn group_at(groups: &Vec<Option<String>>, i: usize) -> (r: Option<String>)
    ensures
        match r {
            Some(s) => group(opt_views(groups@), i as int) == Some(s@),
            None => group(opt_views(groups@), i as int) is None,
        },
{
    if i < groups.len() {
        match &groups[i] {
            Some(s) => Some(s.clone()),
            None => None,
        }
    } else {
        None
    }
}

} // verus!
