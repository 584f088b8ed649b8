//! The default web browser: its desktop file and the command it starts.
use vstd::prelude::*;
use crate::error::{SherlockError, SherlockErrorType};
use crate::text::{chars_of, split, starts_with, starts_with_str, str_eq, string_of};

verus! {

/// The components of a path: the parts between `/`, without empty ones and
/// `.`.
pub open spec fn components(p: Seq<char>) -> Seq<Seq<char>> {
    split(p, '/').filter(|c: Seq<char>| c.len() > 0 && c != "."@)
}

/// Whether `path` ends with the components of `child`.
pub open spec fn ends_with_path(path: Seq<char>, child: Seq<char>) -> bool {
    let a = components(path);
    let b = components(child);
    b.len() <= a.len() && a.skip(a.len() - b.len()) == b
}

fn components_of(p: &str) -> (r: Vec<String>)
    ensures
        r@.map_values(|s: String| s@) == components(p@),
{
    let parts = crate::text::split_string(p, '/');
    let ghost all = split(p@, '/');
    let ghost keep = |c: Seq<char>| c.len() > 0 && c != "."@;
    let mut out: Vec<String> = Vec::new();
    let mut i: usize = 0;
    while i < parts.len()
        invariant
            i <= parts@.len(),
            parts@.len() == all.len(),
            all == split(p@, '/'),
            forall|k: int| 0 <= k < parts@.len() ==> #[trigger] parts@[k]@ == all[k],
            keep == (|c: Seq<char>| c.len() > 0 && c != "."@),
            out@.map_values(|s: String| s@) == all.take(i as int).filter(keep),
        decreases parts@.len() - i,
    {
        proof {
            assert(all.take(i + 1).drop_last() =~= all.take(i as int));
            reveal(Seq::filter);
        }
        let ghost before = out@;
        let c = parts[i].as_str();
        let n = vstd::string::StrSliceExecFns::unicode_len(c);
        if n > 0 && !str_eq(c, ".") {
            out.push(parts[i].clone());
            assert(out@.map_values(|s: String| s@) =~= before.map_values(|s: String| s@).push(
                parts@[i as int]@,
            ));
        }
        i = i + 1;
    }
    assert(all.take(all.len() as int) =~= all);
    out
}

fn ends_with_components(path: &str, child: &str) -> (r: bool)
    ensures
        r == ends_with_path(path@, child@),
{
    let a = components_of(path);
    let b = components_of(child);
    let ghost av = a@.map_values(|s: String| s@);
    let ghost bv = b@.map_values(|s: String| s@);
    if b.len() > a.len() {
        return false;
    }
    let alen = a.len();
    let off = alen - b.len();
    assert(av.len() == a@.len());
    assert(bv.len() == b@.len());
    let mut i: usize = 0;
    while i < b.len()
        invariant
            i <= b@.len(),
            alen == a@.len(),
            off + b@.len() == alen,
            av.len() == a@.len(),
            bv.len() == b@.len(),
            av == components(path@),
            bv == components(child@),
            av == a@.map_values(|s: String| s@),
            bv == b@.map_values(|s: String| s@),
            forall|k: int| 0 <= k < i ==> av[off + k] == bv[k],
        decreases b@.len() - i,
    {
        if !str_eq(a[off + i].as_str(), b[i].as_str()) {
            assert(av[off + i] != bv[i as int]);
            assert(av.skip(off as int)[i as int] != bv[i as int]);
            assert(av.skip(off as int) != bv);
            return false;
        }
        i = i + 1;
    }
    assert(av.skip(off as int) =~= bv);
    true
}

/// The first of the desktop files whose path ends with the browser's
/// desktop file name.
pub open spec fn browser_file_of(files: Seq<String>, name: Seq<char>) -> Option<Seq<char>>
    decreases files.len(),
{
    if files.len() == 0 {
        None
    } else if ends_with_path(files[0]@, name) {
        Some(files[0]@)
    } else {
        browser_file_of(files.drop_first(), name)
    }
}

pub fn browser_file(files: &Vec<String>, desktop_file: &str) -> (r: Option<String>)
    ensures
        match r {
            Some(f) => browser_file_of(files@, desktop_file@) == Some(f@),
            None => browser_file_of(files@, desktop_file@) is None,
        },
{
    let mut i: usize = 0;
    assert(files@.skip(0) =~= files@);
    while i < files.len()
        invariant
            i <= files@.len(),
            browser_file_of(files@, desktop_file@) == browser_file_of(files@.skip(i as int), desktop_file@),
        decreases files@.len() - i,
    {
        assert(files@.skip(i as int).drop_first() =~= files@.skip(i + 1));
        assert(files@.skip(i as int)[0] == files@[i as int]);
        if ends_with_components(files[i].as_str(), desktop_file) {
            return Some(files[i].clone());
        }
        i = i + 1;
    }
    assert(files@.skip(i as int) =~= Seq::<String>::empty());
    None
}

/// The command of the first `Exec=` line.
pub open spec fn exec_of(lines: Seq<String>) -> Option<Seq<char>>
    decreases lines.len(),
{
    if lines.len() == 0 {
        None
    } else if starts_with(lines[0]@, "Exec="@) {
        Some(lines[0]@.skip(5))
    } else {
        exec_of(lines.drop_first())
    }
}

pub fn exec_line(lines: &Vec<String>) -> (r: Option<String>)
    ensures
        match r {
            Some(c) => exec_of(lines@) == Some(c@),
            None => exec_of(lines@) is None,
        },
{
    proof {
        reveal_strlit("Exec=");
    }
    let mut i: usize = 0;
    assert(lines@.skip(0) =~= lines@);
    while i < lines.len()
        invariant
            i <= lines@.len(),
            "Exec="@.len() == 5,
            exec_of(lines@) == exec_of(lines@.skip(i as int)),
        decreases lines@.len() - i,
    {
        assert(lines@.skip(i as int).drop_first() =~= lines@.skip(i + 1));
        assert(lines@.skip(i as int)[0] == lines@[i as int]);
        if starts_with_str(lines[i].as_str(), "Exec=") {
            let v = chars_of(lines[i].as_str());
            let rest = vstd::slice::slice_subrange(v.as_slice(), 5, v.len());
            assert(rest@ =~= lines@[i as int]@.skip(5));
            return Some(string_of(rest));
        }
        i = i + 1;
    }
    assert(lines@.skip(i as int) =~= Seq::<String>::empty());
    None
}

/// The error where the default browser cannot be found.
pub fn no_default_browser(traceback: String) -> (r: SherlockError)
    ensures
        r.error matches SherlockErrorType::EnvVarNotFoundError(w) && w@ == "default browser"@,
        r.traceback == traceback,
{
    SherlockError {
        error: SherlockErrorType::EnvVarNotFoundError(String::from_str("default browser")),
        traceback,
    }
}

} // verus!
