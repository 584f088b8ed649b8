//! The application cache: when it can be used, and which cached entries
//! stay valid when it is refreshed.
use vstd::prelude::*;
use crate::app_dirs::file_has_changed;
use crate::text::str_eq;

verus! {

pub open spec fn changed_since(t: Option<u128>, cache: Option<u128>) -> bool {
    match (t, cache) {
        (Some(a), Some(b)) => a >= b,
        _ => false,
    }
}

/// The cache is read only where none of the alias, ignore and settings files
/// changed since it was written.
pub fn cache_usable(alias_time: Option<u128>, ignore_time: Option<u128>, config_time: Option<u128>, cache_time: Option<u128>) -> (r: bool)
    ensures
        r == !(changed_since(alias_time, cache_time) || changed_since(ignore_time, cache_time)
            || changed_since(config_time, cache_time)),
{
    !(file_has_changed(alias_time, cache_time) || file_has_changed(ignore_time, cache_time)
        || file_has_changed(config_time, cache_time))
}

/// A cached application: its desktop file, where it has one, and when that
/// file was last changed, where that is known.
pub struct CachedApp {
    pub desktop_file: Option<String>,
    pub modified: Option<u128>,
}

pub open spec fn listed(files: Seq<String>, p: Seq<char>) -> bool {
    exists|i: int| 0 <= i < files.len() && files[i]@ == p
}

/// A cached application stays where its desktop file still exists and was
/// not changed since the cache was written.
pub open spec fn keeps(a: CachedApp, files: Seq<String>, last: Option<u128>) -> bool {
    match a.desktop_file {
        Some(p) => listed(files, p@) && !(match (a.modified, last) {
            (Some(m), Some(l)) => m >= l,
            _ => false,
        }),
        None => false,
    }
}

/// A desktop file counts as cached where a kept application comes from it
/// and both times are known.
pub open spec fn covers(a: CachedApp, files: Seq<String>, last: Option<u128>, f: Seq<char>) -> bool {
    match (a.desktop_file, a.modified, last) {
        (Some(p), Some(m), Some(l)) => p@ == f && listed(files, p@) && m < l,
        _ => false,
    }
}

/// Whether a desktop file must be read again: no cached application
/// covers it.
pub open spec fn reread(apps: Seq<CachedApp>, files: Seq<String>, last: Option<u128>, f: Seq<char>) -> bool {
    !exists|i: int| 0 <= i < apps.len() && covers(#[trigger] apps[i], files, last, f)
}

fn is_listed(files: &Vec<String>, p: &str) -> (r: bool)
    ensures
        r == listed(files@, p@),
{
    let mut i: usize = 0;
    while i < files.len()
        invariant
            i <= files@.len(),
            forall|j: int| 0 <= j < i ==> files@[j]@ != p@,
        decreases files@.len() - i,
    {
        if str_eq(files[i].as_str(), p) {
            return true;
        }
        i = i + 1;
    }
    false
}

/// Which cached applications stay (`keep[i]` for the one at `i`) and which
/// desktop files are read again, in their order.
pub fn refresh_plan(apps: &Vec<CachedApp>, files: &Vec<String>, last: Option<u128>) -> (r: (Vec<bool>, Vec<String>))
    ensures
        r.0@.len() == apps@.len(),
        forall|i: int| 0 <= i < apps@.len() ==> r.0@[i] == keeps(#[trigger] apps@[i], files@, last),
        r.1@.map_values(|s: String| s@) == files@.map_values(|s: String| s@).filter(
            |f: Seq<char>| reread(apps@, files@, last, f),
        ),
{
    let mut keep: Vec<bool> = Vec::new();
    let mut covered: Vec<String> = Vec::new();
    let mut i: usize = 0;
    while i < apps.len()
        invariant
            i <= apps@.len(),
            keep@.len() == i,
            forall|j: int| 0 <= j < i ==> keep@[j] == keeps(#[trigger] apps@[j], files@, last),
            forall|f: Seq<char>|
                #![trigger listed(covered@, f)]
                listed(covered@, f) <==> exists|j: int|
                    0 <= j < i && covers(#[trigger] apps@[j], files@, last, f),
        decreases apps@.len() - i,
    {
        let a = &apps[i];
        let ghost before = covered@;
        match &a.desktop_file {
            Some(p) => {
                let present = is_listed(files, p.as_str());
                let fresh = match (a.modified, last) {
                    (Some(m), Some(l)) => m < l,
                    _ => true,
                };
                keep.push(present && fresh);
                match (a.modified, last) {
                    (Some(m), Some(l)) => {
                        if present && m < l {
                            covered.push(p.clone());
                        }
                    },
                    _ => {},
                }
            },
            None => {
                keep.push(false);
            },
        }
        proof {
            assert forall|f: Seq<char>|
                #![trigger listed(covered@, f)]
                listed(covered@, f) <==> exists|j: int|
                    0 <= j < i + 1 && covers(#[trigger] apps@[j], files@, last, f) by {
                if listed(covered@, f) {
                    let k = choose|k: int| 0 <= k < covered@.len() && covered@[k]@ == f;
                    if k < before.len() {
                        assert(listed(before, f));
                    } else {
                        assert(covers(apps@[i as int], files@, last, f));
                    }
                }
                if exists|j: int| 0 <= j < i + 1 && covers(#[trigger] apps@[j], files@, last, f) {
                    let j = choose|j: int| 0 <= j < i + 1 && covers(#[trigger] apps@[j], files@, last, f);
                    if j < i {
                        assert(listed(before, f));
                        let k = choose|k: int| 0 <= k < before.len() && before[k]@ == f;
                        assert(covered@[k] == before[k]);
                    } else {
                        assert(covered@[before.len() as int]@ == f);
                    }
                }
            }
        }
        i = i + 1;
    }
    let ghost names = files@.map_values(|s: String| s@);
    let ghost sel = |f: Seq<char>| reread(apps@, files@, last, f);
    let mut out: Vec<String> = Vec::new();
    let mut k: usize = 0;
    while k < files.len()
        invariant
            k <= files@.len(),
            names == files@.map_values(|s: String| s@),
            sel == (|f: Seq<char>| reread(apps@, files@, last, f)),
            forall|f: Seq<char>|
                #![trigger listed(covered@, f)]
                listed(covered@, f) <==> exists|j: int|
                    0 <= j < apps@.len() && covers(#[trigger] apps@[j], files@, last, f),
            out@.map_values(|s: String| s@) == names.take(k as int).filter(sel),
        decreases files@.len() - k,
    {
        proof {
            assert(names.take(k + 1).drop_last() =~= names.take(k as int));
            reveal(Seq::filter);
        }
        let ghost before = out@;
        let c = is_listed(&covered, files[k].as_str());
        proof {
            assert(names[k as int] == files@[k as int]@);
            assert(c == !sel(files@[k as int]@));
        }
        if !c {
            out.push(files[k].clone());
            assert(out@.map_values(|s: String| s@) =~= before.map_values(|s: String| s@).push(
                files@[k as int]@,
            ));
        }
        k = k + 1;
    }
    assert(names.take(files@.len() as int) =~= names);
    (keep, out)
}

} // verus!
