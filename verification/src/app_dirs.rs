//! The directories searched for desktop entries.
use vstd::prelude::*;
use crate::paths::{extension, join, path_extension, path_join};
use crate::text::{dedup_strings, first_occurrences, replace, replace_str, split, split_string, str_eq};

verus! {

pub open spec fn views(v: Seq<String>) -> Seq<Seq<char>> {
    v.map_values(|s: String| s@)
}

/// The `applications/` directory under each entry of `XDG_DATA_DIRS`.
pub open spec fn xdg_dirs(xdg: Option<Seq<char>>) -> Seq<Seq<char>> {
    match xdg {
        Some(paths) => split(paths, ':').map_values(|p: Seq<char>| path_join(p, "applications/"@)),
        None => Seq::empty(),
    }
}

/// The application directories named by `XDG_DATA_DIRS`, one per entry.
pub fn xdg_application_dirs(xdg: Option<&str>) -> (r: Vec<String>)
    ensures
        views(r@) == xdg_dirs(
            match xdg {
                Some(x) => Some(x@),
                None => None,
            },
        ),
{
    match xdg {
        None => {
            let r: Vec<String> = Vec::new();
            assert(views(r@) =~= Seq::<Seq<char>>::empty());
            r
        },
        Some(paths) => {
            let parts = split_string(paths, ':');
            let mut out: Vec<String> = Vec::new();
            let mut i: usize = 0;
            while i < parts.len()
                invariant
                    i <= parts@.len(),
                    parts@.len() == split(paths@, ':').len(),
                    forall|k: int| 0 <= k < parts@.len() ==> #[trigger] parts@[k]@ == split(
                        paths@,
                        ':',
                    )[k],
                    out@.len() == i,
                    forall|k: int| 0 <= k < i ==> #[trigger] out@[k]@ == path_join(
                        split(paths@, ':')[k],
                        "applications/"@,
                    ),
                decreases parts@.len() - i,
            {
                out.push(join(parts[i].as_str(), "applications/"));
                i = i + 1;
            }
            assert(views(out@) =~= xdg_dirs(Some(paths@)));
            out
        },
    }
}

/// The directories searched: the system and user defaults and any further
/// configured ones, each with every `~` replaced by the home directory (or
/// left as `~` where there is none), then those of `XDG_DATA_DIRS`.
pub open spec fn application_dirs(
    xdg: Option<Seq<char>>,
    home: Option<Seq<char>>,
    extra: Seq<Seq<char>>,
) -> Seq<Seq<char>> {
    let h = match home {
        Some(h) => h,
        None => "~"@,
    };
    (seq!["/usr/share/applications/"@, "~/.local/share/applications/"@] + extra).map_values(
        |p: Seq<char>| replace(p, "~"@, h),
    ) + xdg_dirs(xdg)
}

/// The directories searched for desktop entries, each once, in the order
/// they are first named.
pub fn get_applications_dir(xdg: Option<&str>, home: Option<&str>, extra: &Vec<String>) -> (r: Vec<
    String,
>)
    ensures
        views(r@).no_duplicates(),
        views(r@) == first_occurrences(application_dirs(
            match xdg {
                Some(x) => Some(x@),
                None => None,
            },
            match home {
                Some(h) => Some(h@),
                None => None,
            },
            views(extra@),
        )),
{
    proof {
        reveal_strlit("~");
    }
    let h: &str = match home {
        Some(h) => h,
        None => "~",
    };
    let mut defaults: Vec<String> = Vec::new();
    defaults.push(String::from_str("/usr/share/applications/"));
    defaults.push(String::from_str("~/.local/share/applications/"));
    let mut i: usize = 0;
    while i < extra.len()
        invariant
            i <= extra@.len(),
            views(defaults@) == seq!["/usr/share/applications/"@, "~/.local/share/applications/"@]
                + views(extra@).take(i as int),
        decreases extra@.len() - i,
    {
        let ghost d0 = defaults@;
        defaults.push(extra[i].clone());
        assert(views(extra@)[i as int] == extra@[i as int]@);
        assert(views(defaults@) =~= views(d0).push(extra@[i as int]@));
        assert(views(extra@).take(i + 1) =~= views(extra@).take(i as int).push(extra@[i as int]@));
        i = i + 1;
        assert(views(defaults@) =~= seq!["/usr/share/applications/"@, "~/.local/share/applications/"@]
            + views(extra@).take(i as int));
    }
    assert(views(extra@).take(extra@.len() as int) =~= views(extra@));
    let ghost all = views(defaults@);
    let mut out: Vec<String> = Vec::new();
    let mut k: usize = 0;
    while k < defaults.len()
        invariant
            k <= defaults@.len(),
            all == views(defaults@),
            h@ == (match home {
                Some(x) => x@,
                None => "~"@,
            }),
            "~"@.len() == 1,
            views(out@) == all.take(k as int).map_values(|p: Seq<char>| replace(p, "~"@, h@)),
        decreases defaults@.len() - k,
    {
        let ghost o0 = out@;
        let x = replace_str(defaults[k].as_str(), "~", h);
        out.push(x);
        assert(all[k as int] == defaults@[k as int]@);
        assert(views(out@) =~= views(o0).push(x@));
        assert(all.take(k + 1) =~= all.take(k as int).push(all[k as int]));
        k = k + 1;
        assert(views(out@) =~= all.take(k as int).map_values(|p: Seq<char>| replace(p, "~"@, h@)));
    }
    assert(all.take(all.len() as int) =~= all);
    let xdirs = xdg_application_dirs(xdg);
    let ghost before = out@;
    let mut j: usize = 0;
    while j < xdirs.len()
        invariant
            j <= xdirs@.len(),
            views(out@) == views(before) + views(xdirs@).take(j as int),
        decreases xdirs@.len() - j,
    {
        let ghost o1 = out@;
        out.push(xdirs[j].clone());
        assert(views(out@) =~= views(o1).push(xdirs@[j as int]@));
        assert(views(xdirs@).take(j + 1) =~= views(xdirs@).take(j as int).push(xdirs@[j as int]@));
        j = j + 1;
        assert(views(out@) =~= views(before) + views(xdirs@).take(j as int));
    }
    assert(views(xdirs@).take(xdirs@.len() as int) =~= views(xdirs@));
    dedup_strings(&out)
}

/// Whether a path names a desktop entry: its extension is `desktop`.
pub fn is_desktop_file(path: &str) -> (r: bool)
    ensures
        r == (extension(path@) == Some("desktop"@)),
{
    match path_extension(path) {
        Some(e) => str_eq(e.as_str(), "desktop"),
        None => false,
    }
}

/// Whether a file changed since another: both times are known and the
/// first is not older.
pub fn file_has_changed(file_time: Option<u128>, compare_time: Option<u128>) -> (r: bool)
    ensures
        r == match (file_time, compare_time) {
            (Some(t1), Some(t2)) => t1 >= t2,
            _ => false,
        },
{
    match (file_time, compare_time) {
        (Some(t1), Some(t2)) => t1 >= t2,
        _ => false,
    }
}

} // verus!
