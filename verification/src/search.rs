//! Fuzzy matching of search text against what a tile shows.
use vstd::prelude::*;
use crate::pipe::PipedElements;
use crate::text::{chars_of, contains, contains_chars, has_at, lowercase, to_lowercase};

verus! {

/// What is kept of the searched text: the characters that occur in the
/// pattern, and `;`, which separates the parts of a search string.
pub open spec fn keep_for(pattern: Seq<char>, c: char) -> bool {
    pattern.contains(c) || c == ';'
}

/// Whether `pattern` fuzzily matches `text`: both are lowercased, every
/// character of the text that is neither in the pattern nor `;` is dropped,
/// and the pattern must occur in what is left.
pub open spec fn fuzzy(text: Seq<char>, pattern: Seq<char>) -> bool {
    let p = lowercase(pattern);
    contains(lowercase(text).filter(|c: char| keep_for(p, c)), p)
}

fn has_char(v: &Vec<char>, c: char) -> (r: bool)
    ensures
        r == v@.contains(c),
{
    let mut i: usize = 0;
    while i < v.len()
        invariant
            i <= v@.len(),
            forall|j: int| 0 <= j < i ==> v@[j] != c,
        decreases v@.len() - i,
    {
        if v[i] == c {
            return true;
        }
        i = i + 1;
    }
    false
}

fn fuzzy_exec(text: &str, pattern: &str) -> (r: bool)
    ensures
        r == fuzzy(text@, pattern@),
{
    let lp = to_lowercase(pattern);
    let lt = to_lowercase(text);
    let p = chars_of(lp.as_str());
    let t = chars_of(lt.as_str());
    let ghost keep = |c: char| keep_for(p@, c);
    let mut kept: Vec<char> = Vec::new();
    let mut i: usize = 0;
    while i < t.len()
        invariant
            i <= t@.len(),
            keep == (|c: char| keep_for(p@, c)),
            kept@ == t@.take(i as int).filter(keep),
        decreases t@.len() - i,
    {
        proof {
            assert(t@.take(i + 1).drop_last() =~= t@.take(i as int));
            reveal(Seq::filter);
        }
        let c = t[i];
        if has_char(&p, c) || c == ';' {
            kept.push(c);
        }
        i = i + 1;
    }
    assert(t@.take(t@.len() as int) =~= t@);
    contains_chars(&kept, &p)
}

/// Matching a search pattern against what a value shows.
pub trait SherlockSearch {
    /// Whether the value matches `pattern`.
    spec fn matches_spec(&self, pattern: Seq<char>) -> bool;

    fn fuzzy_match(&self, substring: &str) -> (r: bool)
        ensures
            r == self.matches_spec(substring@),
    ;
}

impl SherlockSearch for String {
    open spec fn matches_spec(&self, pattern: Seq<char>) -> bool {
        fuzzy(self@, pattern)
    }

    fn fuzzy_match(&self, substring: &str) -> (r: bool) {
        fuzzy_exec(self.as_str(), substring)
    }
}

/// An element is searched by its title, or by its description where it has
/// no title; one with neither matches nothing.
pub open spec fn element_matches(e: PipedElements, pattern: Seq<char>) -> bool {
    match e.title {
        Some(t) => fuzzy(t@, pattern),
        None => match e.description {
            Some(d) => fuzzy(d@, pattern),
            None => false,
        },
    }
}

impl SherlockSearch for PipedElements {
    open spec fn matches_spec(&self, pattern: Seq<char>) -> bool {
        element_matches(*self, pattern)
    }

    fn fuzzy_match(&self, substring: &str) -> (r: bool) {
        match &self.title {
            Some(t) => fuzzy_exec(t.as_str(), substring),
            None => match &self.description {
                Some(d) => fuzzy_exec(d.as_str(), substring),
                None => false,
            },
        }
    }
}

proof fn lemma_filter_all(s: Seq<char>, pred: spec_fn(char) -> bool)
    requires
        forall|i: int| 0 <= i < s.len() ==> pred(#[trigger] s[i]),
    ensures
        s.filter(pred) == s,
    decreases s.len(),
{
    reveal(Seq::filter);
    if s.len() > 0 {
        lemma_filter_all(s.drop_last(), pred);
        assert(s.drop_last().push(s.last()) =~= s);
    }
}

/// A pattern that occurs in the text, both lowercased, matches it: the
/// characters of the occurrence all stay when the text is filtered.
pub proof fn lemma_occurrence_matches(text: Seq<char>, pattern: Seq<char>)
    requires
        contains(lowercase(text), lowercase(pattern)),
    ensures
        fuzzy(text, pattern),
{
    let t = lowercase(text);
    let p = lowercase(pattern);
    let keep = |c: char| keep_for(p, c);
    let i = choose|i: int| has_at(t, p, i);
    let a = t.take(i);
    let m = t.subrange(i, i + p.len());
    let b = t.skip(i + p.len());
    assert(t =~= a + m + b);
    assert(m == p);
    assert forall|k: int| 0 <= k < m.len() implies keep(#[trigger] m[k]) by {
        assert(p.contains(m[k]));
    }
    lemma_filter_all(m, keep);
    Seq::filter_distributes_over_add(a + m, b, keep);
    Seq::filter_distributes_over_add(a, m, keep);
    let fa = a.filter(keep);
    let f = t.filter(keep);
    assert(f =~= fa + p + b.filter(keep));
    assert(f.subrange(fa.len() as int, (fa.len() + p.len()) as int) =~= p);
    assert(has_at(f, p, fa.len() as int));
}

/// Every text matches itself as a pattern.
pub proof fn lemma_matches_itself(text: Seq<char>)
    ensures
        fuzzy(text, text),
{
    let t = lowercase(text);
    assert(t.subrange(0, t.len() as int) =~= t);
    assert(has_at(t, t, 0));
    lemma_occurrence_matches(text, text);
}

} // verus!
