//! File paths as text: joining, `~` for the home directory, extensions.
use vstd::prelude::*;
use vstd::string::StrSliceExecFns;
use crate::text::{chars_of, ends_with, starts_with, starts_with_str, string_of};

verus! {

/// `base` joined with `rel` as `Path::join` does it: an absolute `rel`
/// replaces `base`, otherwise one `/` separates them.
pub open spec fn path_join(base: Seq<char>, rel: Seq<char>) -> Seq<char> {
    if starts_with(rel, "/"@) || base.len() == 0 {
        rel
    } else if ends_with(base, "/"@) {
        base + rel
    } else {
        base + "/"@ + rel
    }
}

pub fn join(base: &str, rel: &str) -> (r: String)
    ensures
        r@ == path_join(base@, rel@),
{
    if starts_with_str(rel, "/") || base.unicode_len() == 0 {
        return String::from_str(rel);
    }
    let mut r = String::from_str(base);
    if !crate::text::ends_with_str(base, "/") {
        r.append("/");
    }
    r.append(rel);
    r
}

/// A path with a leading `~` component read as the home directory.
pub open spec fn expand(path: Seq<char>, home: Seq<char>) -> Seq<char> {
    if path == "~"@ {
        home
    } else if starts_with(path, "~/"@) {
        path_join(home, path.skip(2))
    } else {
        path
    }
}

pub fn expand_path(path: &str, home: &str) -> (r: String)
    ensures
        r@ == expand(path@, home@),
{
    if crate::text::str_eq(path, "~") {
        return String::from_str(home);
    }
    if starts_with_str(path, "~/") {
        proof {
            reveal_strlit("~/");
        }
        let v = chars_of(path);
        let rest = vstd::slice::slice_subrange(v.as_slice(), 2, v.len());
        let rest_s = string_of(rest);
        proof {
            assert(rest@ =~= path@.skip(2));
        }
        return join(home, rest_s.as_str());
    }
    String::from_str(path)
}

/// Position of the last `c` in `s`.
pub open spec fn last_index(s: Seq<char>, c: char) -> Option<int>
    decreases s.len(),
{
    if s.len() == 0 {
        None
    } else if s.last() == c {
        Some(s.len() - 1)
    } else {
        last_index(s.drop_last(), c)
    }
}

pub proof fn lemma_last_index(s: Seq<char>, c: char)
    ensures
        match last_index(s, c) {
            Some(i) => 0 <= i < s.len() && s[i] == c && forall|j: int| i < j < s.len() ==> s[j]
                != c,
            None => forall|j: int| 0 <= j < s.len() ==> s[j] != c,
        },
    decreases s.len(),
{
    if s.len() > 0 && s.last() != c {
        let t = s.drop_last();
        lemma_last_index(t, c);
        assert forall|j: int| 0 <= j < t.len() implies t[j] == s[j] by {}
    }
}

proof fn lemma_last_index_at(s: Seq<char>, c: char, i: int)
    requires
        0 <= i < s.len(),
        s[i] == c,
        forall|j: int| i < j < s.len() ==> s[j] != c,
    ensures
        last_index(s, c) == Some(i),
    decreases s.len(),
{
    if i < s.len() - 1 {
        lemma_last_index_at(s.drop_last(), c, i);
    }
}

proof fn lemma_last_index_none(s: Seq<char>, c: char)
    requires
        forall|j: int| 0 <= j < s.len() ==> s[j] != c,
    ensures
        last_index(s, c) is None,
    decreases s.len(),
{
    if s.len() > 0 {
        lemma_last_index_none(s.drop_last(), c);
    }
}

pub fn find_last(s: &[char], c: char) -> (r: Option<usize>)
    ensures
        match r {
            Some(i) => i < s@.len() && last_index(s@, c) == Some(i as int),
            None => last_index(s@, c) is None,
        },
{
    let mut i: usize = s.len();
    while i > 0
        invariant
            i <= s@.len(),
            forall|j: int| i <= j < s@.len() ==> s@[j] != c,
        decreases i,
    {
        if s[i - 1] == c {
            proof {
                lemma_last_index_at(s@, c, i - 1);
            }
            return Some(i - 1);
        }
        i = i - 1;
    }
    proof {
        lemma_last_index_none(s@, c);
    }
    None
}

/// A path without what `Path` ignores at its end: trailing `/`s and
/// trailing `.` components.
pub open spec fn trim_tail(p: Seq<char>) -> Seq<char>
    decreases p.len(),
{
    if p.len() > 1 && p.last() == '/' {
        trim_tail(p.drop_last())
    } else if p.len() > 1 && p.last() == '.' && p[p.len() - 2] == '/' {
        trim_tail(p.drop_last())
    } else {
        p
    }
}

/// The last component of a path.
pub open spec fn file_name(path: Seq<char>) -> Seq<char> {
    let t = trim_tail(path);
    match last_index(t, '/') {
        Some(i) => t.skip(i + 1),
        None => t,
    }
}

/// The extension of a path: what follows the last `.` of its file name,
/// where that `.` is not the name's first character; a name that is `.` or
/// `..` has none.
pub open spec fn extension(path: Seq<char>) -> Option<Seq<char>> {
    let name = file_name(path);
    if name == "."@ || name == ".."@ {
        None
    } else {
        match last_index(name, '.') {
            Some(k) => if k > 0 {
                Some(name.skip(k + 1))
            } else {
                None
            },
            None => None,
        }
    }
}

/// The path without trailing `/`s and `.` components.
pub fn trimmed_path(path: &str) -> (r: Vec<char>)
    ensures
        r@ == trim_tail(path@),
{
    let v = chars_of(path);
    let mut end: usize = v.len();
    assert(path@.take(end as int) =~= path@);
    while end > 1
        invariant
            end <= v@.len(),
            v@ == path@,
            trim_tail(path@) == trim_tail(path@.take(end as int)),
        ensures
            end <= v@.len(),
            trim_tail(path@) == path@.take(end as int),
        decreases end,
    {
        let last = v[end - 1];
        let before = v[end - 2];
        if !(last == '/' || (last == '.' && before == '/')) {
            assert(path@.take(end as int).last() == last);
            assert(path@.take(end as int)[end - 2] == before);
            break;
        }
        assert(path@.take(end as int).drop_last() =~= path@.take(end - 1));
        end = end - 1;
    }
    let r = vstd::slice::slice_to_vec(vstd::slice::slice_subrange(v.as_slice(), 0, end));
    assert(r@ =~= path@.take(end as int));
    r
}

/// The last component of `path`, as `file_name` says.
pub fn file_name_of(path: &str) -> (r: Vec<char>)
    ensures
        r@ == file_name(path@),
{
    let t = trimmed_path(path);
    match find_last(t.as_slice(), '/') {
        Some(i) => {
            assert(i < t.len());
            let n = vstd::slice::slice_to_vec(vstd::slice::slice_subrange(t.as_slice(), i + 1, t.len()));
            assert(n@ =~= t@.skip(i + 1));
            n
        },
        None => t,
    }
}

pub fn path_extension(path: &str) -> (r: Option<String>)
    ensures
        match r {
            Some(e) => extension(path@) == Some(e@),
            None => extension(path@) is None,
        },
{
    let name = file_name_of(path);
    if name.len() == 1 && name[0] == '.' {
        assert(name@ =~= "."@) by {
            reveal_strlit(".");
        }
        return None;
    }
    if name.len() == 2 && name[0] == '.' && name[1] == '.' {
        assert(name@ =~= ".."@) by {
            reveal_strlit("..");
        }
        return None;
    }
    proof {
        reveal_strlit(".");
        reveal_strlit("..");
        assert(name@ != "."@ ==> true);
        if name@ == "."@ {
            assert(name@.len() == 1 && name@[0] == '.');
        }
        if name@ == ".."@ {
            assert(name@.len() == 2 && name@[0] == '.' && name@[1] == '.');
        }
    }
    match find_last(name.as_slice(), '.') {
        Some(k) => {
            assert(k < name.len());
            if k > 0 {
                let e = vstd::slice::slice_subrange(name.as_slice(), k + 1, name.len());
                assert(e@ =~= name@.skip(k + 1));
                Some(string_of(e))
            } else {
                None
            }
        },
        None => None,
    }
}

/// The extension of a path, where it has one, is the end of the path
/// once what `Path` ignores at its end is cut off.
pub proof fn lemma_extension_ends_path(path: Seq<char>)
    ensures
        extension(path) matches Some(e) ==> e.len() + 1 <= trim_tail(path).len() && trim_tail(
            path,
        ).skip(trim_tail(path).len() - e.len()) == e,
{
    let t = trim_tail(path);
    lemma_last_index(t, '/');
    let name = file_name(path);
    lemma_last_index(name, '.');
    if extension(path) is Some {
        let e = extension(path)->0;
        let k = last_index(name, '.')->0;
        match last_index(t, '/') {
            Some(i) => {
                assert(t.skip(t.len() - e.len()) =~= name.skip(k + 1));
            },
            None => {
                assert(t.skip(t.len() - e.len()) =~= name.skip(k + 1));
            },
        }
    }
}

/// Reading `~` once is enough: a path whose `~` was replaced by a home
/// directory that does not itself start with `~` has nothing left to
/// replace.
pub proof fn lemma_expand_idempotent(path: Seq<char>, home: Seq<char>)
    requires
        home.len() > 0,
        home[0] != '~',
    ensures
        expand(expand(path, home), home) == expand(path, home),
{
    reveal_strlit("~");
    reveal_strlit("~/");
    reveal_strlit("/");
    assert("~"@ =~= seq!['~']);
    assert("~/"@ =~= seq!['~', '/']);
    assert("/"@ =~= seq!['/']);
    let e = expand(path, home);
    if path == "~"@ {
        assert(e == home);
    } else if starts_with(path, "~/"@) {
        let rest = path.skip(2);
        if starts_with(rest, "/"@) {
            assert(e == rest);
            assert(rest.subrange(0, 1)[0] == rest[0]);
            assert(e[0] == '/');
        } else if ends_with(home, "/"@) {
            assert(e == home + rest);
            assert(e[0] == home[0]);
        } else {
            assert(e == home + "/"@ + rest);
            assert(e[0] == home[0]);
        }
    }
    if e.len() > 0 {
        assert(e[0] != '~' || e == path);
    }
    if e == "~"@ {
        assert(e[0] == '~');
    }
    if starts_with(e, "~/"@) {
        assert(e.subrange(0, 2)[0] == e[0]);
        assert(e[0] == '~');
    }
}

} // verus!
