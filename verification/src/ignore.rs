//! The user's ignore list: glob patterns matched against application names.
use vstd::prelude::*;
use crate::text::{lowercase, to_lowercase};

verus! {

/// What compiling `pattern` with `glob::Pattern::new` and matching `text`
/// against it gives: `None` where the pattern does not compile.
pub uninterp spec fn glob_match(pattern: Seq<char>, text: Seq<char>) -> Option<bool>;

/// Compiles `pattern` with `glob::Pattern::new` and, where that succeeds,
/// matches `text` with `glob::Pattern::matches`.
///
/// Trusted: the answer is taken to depend on `pattern` and `text` alone
/// (`glob_match`); glob's matching rules are not restated.
#[verifier::external_body]
fn glob_matches(pattern: &str, text: &str) -> (r: Option<bool>)
    ensures
        r == glob_match(pattern@, text@),
{
    match glob::Pattern::new(pattern) {
        Ok(p) => Some(p.matches(text)),
        Err(_) => None,
    }
}

/// Some pattern of `patterns` compiles and matches `name`.
pub open spec fn any_match(patterns: Seq<String>, name: Seq<char>) -> bool {
    exists|i: int| 0 <= i < patterns.len() && glob_match(#[trigger] patterns[i]@, name) == Some(
        true,
    )
}

/// The ignore patterns read from the lines of the ignore file: each line in
/// lower case.
pub fn ignore_patterns(lines: &Vec<String>) -> (r: Vec<String>)
    ensures
        r@.len() == lines@.len(),
        forall|i: int| 0 <= i < r@.len() ==> #[trigger] r@[i]@ == lowercase(lines@[i]@),
{
    let mut r: Vec<String> = Vec::new();
    let mut i: usize = 0;
    while i < lines.len()
        invariant
            i <= lines@.len(),
            r@.len() == i,
            forall|k: int| 0 <= k < i ==> #[trigger] r@[k]@ == lowercase(lines@[k]@),
        decreases lines@.len() - i,
    {
        r.push(to_lowercase(lines[i].as_str()));
        i = i + 1;
    }
    r
}

/// Whether the application `app` is ignored: its name in lower case matches
/// one of `patterns`.
pub fn should_ignore(patterns: &Vec<String>, app: &str) -> (r: bool)
    ensures
        r == any_match(patterns@, lowercase(app@)),
{
    let name = to_lowercase(app);
    let mut i: usize = 0;
    while i < patterns.len()
        invariant
            i <= patterns@.len(),
            name@ == lowercase(app@),
            forall|k: int| 0 <= k < i ==> glob_match(#[trigger] patterns@[k]@, name@) != Some(
                true,
            ),
        decreases patterns@.len() - i,
    {
        match glob_matches(patterns[i].as_str(), name.as_str()) {
            Some(true) => {
                return true;
            },
            _ => {},
        }
        i = i + 1;
    }
    false
}

} // verus!
