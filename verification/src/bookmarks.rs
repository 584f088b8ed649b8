//! Browser bookmarks: which browser's files are read, and the entries that
//! a Chromium bookmark tree holds.
use vstd::prelude::*;
use crate::error::{SherlockError, SherlockErrorType};
use crate::paths::{join, path_join};
use crate::loader::{arg_str, RawLauncher};
use crate::text::{first_occurrences, lowercase, str_eq, to_lowercase};

verus! {

/// Where a browser keeps its bookmarks.
#[derive(PartialEq, Eq, Structural)]
pub enum BrowserKind {
    Zen,
    Brave,
    Firefox,
    Chrome,
    Thorium,
}

/// The browser that a configured name or command stands for, compared in
/// lower case.
pub open spec fn browser_kind(b: Seq<char>) -> Option<BrowserKind> {
    if b == "zen"@ || b == "zen-browser"@ || b == "/opt/zen-browser-bin/zen-bin %u"@ {
        Some(BrowserKind::Zen)
    } else if b == "brave"@ || b == "brave %u"@ {
        Some(BrowserKind::Brave)
    } else if b == "firefox"@ || b == "/usr/lib/firefox/firefox %u"@ {
        Some(BrowserKind::Firefox)
    } else if b == "chrome"@ || b == "google-chrome"@ || b == "/usr/bin/google-chrome-stable %u"@ {
        Some(BrowserKind::Chrome)
    } else if b == "thorium"@ || b == "/usr/bin/thorium-browser %u"@ {
        Some(BrowserKind::Thorium)
    } else {
        None
    }
}

/// The explanation shown for a browser whose bookmarks cannot be read.
pub open spec fn unsupported_text(browser: Seq<char>) -> Seq<char> {
    "The browser \"<i>"@ + browser
        + "</i>\" is either not supported or not recognized.\nCheck the <span foreground=\"#247BA0\"><u><a href=\"https://github.com/Skxxtz/sherlock/blob/main/docs/launchers.md#bookmark-launcher\">documentation</a></u></span> for more information.\n"@
}

pub struct BookmarkLauncher;

impl BookmarkLauncher {
    /// Which bookmarks to read for the configured browser; an unknown one is
    /// refused.
    pub fn find_bookmarks(browser: &str) -> (r: Result<BrowserKind, SherlockError>)
        ensures
            match r {
                Ok(k) => browser_kind(lowercase(browser@)) == Some(k),
                Err(e) => {
                    &&& browser_kind(lowercase(browser@)) is None
                    &&& e.error matches SherlockErrorType::UnsupportedBrowser(b) && b@ == browser@
                    &&& e.traceback@ == unsupported_text(browser@)
                },
            },
    {
        let l = to_lowercase(browser);
        let b = l.as_str();
        if str_eq(b, "zen") || str_eq(b, "zen-browser") || str_eq(b, "/opt/zen-browser-bin/zen-bin %u") {
            Ok(BrowserKind::Zen)
        } else if str_eq(b, "brave") || str_eq(b, "brave %u") {
            Ok(BrowserKind::Brave)
        } else if str_eq(b, "firefox") || str_eq(b, "/usr/lib/firefox/firefox %u") {
            Ok(BrowserKind::Firefox)
        } else if str_eq(b, "chrome") || str_eq(b, "google-chrome") || str_eq(
            b,
            "/usr/bin/google-chrome-stable %u",
        ) {
            Ok(BrowserKind::Chrome)
        } else if str_eq(b, "thorium") || str_eq(b, "/usr/bin/thorium-browser %u") {
            Ok(BrowserKind::Thorium)
        } else {
            let mut t = String::from_str("The browser \"<i>");
            t.append(browser);
            t.append(
                "</i>\" is either not supported or not recognized.\nCheck the <span foreground=\"#247BA0\"><u><a href=\"https://github.com/Skxxtz/sherlock/blob/main/docs/launchers.md#bookmark-launcher\">documentation</a></u></span> for more information.\n",
            );
            Err(
                SherlockError {
                    error: SherlockErrorType::UnsupportedBrowser(String::from_str(browser)),
                    traceback: t,
                },
            )
        }
    }
}

/// The bookmarks file of a Chromium browser, under the home directory.
pub open spec fn chromium_file(kind: BrowserKind) -> Option<Seq<char>> {
    match kind {
        BrowserKind::Brave => Some(".config/BraveSoftware/Brave-Browser/Default/Bookmarks"@),
        BrowserKind::Chrome => Some(".config/google-chrome/Default/Bookmarks"@),
        BrowserKind::Thorium => Some(".config/thorium/Default/Bookmarks"@),
        _ => None,
    }
}

/// The file that holds a Chromium browser's bookmarks; `None` for the
/// browsers that keep them in a places database.
pub fn chromium_bookmarks_path(kind: &BrowserKind, home: &str) -> (r: Option<String>)
    ensures
        match r {
            Some(p) => chromium_file(*kind) matches Some(f) && p@ == path_join(home@, f),
            None => chromium_file(*kind) is None,
        },
{
    match kind {
        BrowserKind::Brave => Some(join(home, ".config/BraveSoftware/Brave-Browser/Default/Bookmarks")),
        BrowserKind::Chrome => Some(join(home, ".config/google-chrome/Default/Bookmarks")),
        BrowserKind::Thorium => Some(join(home, ".config/thorium/Default/Bookmarks")),
        _ => None,
    }
}

/// The profile directory that holds a Mozilla browser's places database,
/// with the prefix of its cached copy, and the error where no profile has
/// one.
pub fn mozilla_profile_root(kind: &BrowserKind) -> (r: Option<(String, String, SherlockError)>)
    ensures
        match r {
            Some((root, prefix, err)) => {
                &&& (*kind == BrowserKind::Zen || *kind == BrowserKind::Firefox)
                &&& root@ == (if *kind == BrowserKind::Zen { ".zen"@ } else { ".mozilla/firefox/"@ })
                &&& prefix@ == (if *kind == BrowserKind::Zen { "zen"@ } else { "firefox"@ })
                &&& err.error matches SherlockErrorType::FileExistError(p) && p@ == (if *kind
                    == BrowserKind::Zen {
                    "~/.zen/../places.sqlite"@
                } else {
                    "~/.mozilla/firefox//../places.sqlite"@
                })
                &&& err.traceback@ == "File does not exist"@
            },
            None => *kind != BrowserKind::Zen && *kind != BrowserKind::Firefox,
        },
{
    match kind {
        BrowserKind::Zen => Some(
            (
                String::from_str(".zen"),
                String::from_str("zen"),
                SherlockError {
                    error: SherlockErrorType::FileExistError(
                        String::from_str("~/.zen/../places.sqlite"),
                    ),
                    traceback: String::from_str("File does not exist"),
                },
            ),
        ),
        BrowserKind::Firefox => Some(
            (
                String::from_str(".mozilla/firefox/"),
                String::from_str("firefox"),
                SherlockError {
                    error: SherlockErrorType::FileExistError(
                        String::from_str("~/.mozilla/firefox//../places.sqlite"),
                    ),
                    traceback: String::from_str("File does not exist"),
                },
            ),
        ),
        _ => None,
    }
}

/// Reads bookmarks from a copy of a Mozilla places database.
pub struct MozillaSqliteParser {
    pub path: String,
}

/// Where the copy of a places database is kept.
pub open spec fn cache_copy(home: Seq<char>, prefix: Seq<char>) -> Seq<char> {
    path_join(home, ".cache/sherlock/bookmarks/"@ + prefix + "-places.sqlite"@)
}

impl MozillaSqliteParser {
    /// A parser over the cached copy of `file` where there is a home
    /// directory, else over `file` itself.
    pub fn new(file: &str, prefix: &str, home: Option<&str>) -> (r: Self)
        ensures
            r.path@ == match home {
                Some(h) => cache_copy(h@, prefix@),
                None => file@,
            },
    {
        match home {
            Some(h) => {
                let mut target = String::from_str(".cache/sherlock/bookmarks/");
                target.append(prefix);
                target.append("-places.sqlite");
                MozillaSqliteParser { path: join(h, target.as_str()) }
            },
            None => MozillaSqliteParser { path: String::from_str(file) },
        }
    }

    /// Whether the copy must be refreshed: where it is missing, where either
    /// time is unknown, or where the browser's file changed after it.
    pub fn should_update_cache(dest_exists: bool, source_modified: Option<u128>, dest_modified: Option<u128>) -> (r: bool)
        ensures
            r == (!dest_exists || match (source_modified, dest_modified) {
                (Some(s), Some(d)) => s > d,
                _ => true,
            }),
    {
        if !dest_exists {
            return true;
        }
        match (source_modified, dest_modified) {
            (Some(s), Some(d)) => s > d,
            _ => true,
        }
    }
}

/// A node of a Chromium bookmarks file.
pub struct ChromeBookmark {
    pub name: String,
    pub kind: String,
    pub children: Option<Vec<ChromeBookmark>>,
    pub url: Option<String>,
}

/// The bookmarks under a node, in file order, each as name and address: a
/// folder holds those of its children, an address holds itself where it has
/// one, anything else none.
pub open spec fn node_entries(b: ChromeBookmark) -> Seq<(Seq<char>, Seq<char>)>
    decreases b, 1nat,
{
    if b.kind@ == "folder"@ {
        match b.children {
            Some(cs) => {
                proof {
                    assert(decreases_to!(b => b.children));
                }
                list_entries(cs@)
            },
            None => Seq::empty(),
        }
    } else if b.kind@ == "url"@ {
        match b.url {
            Some(u) => seq![(b.name@, u@)],
            None => Seq::empty(),
        }
    } else {
        Seq::empty()
    }
}

/// The bookmarks under a list of nodes, one node after the other.
pub open spec fn list_entries(bs: Seq<ChromeBookmark>) -> Seq<(Seq<char>, Seq<char>)>
    decreases bs, 0nat,
{
    if bs.len() == 0 {
        Seq::empty()
    } else {
        node_entries(bs[0]) + list_entries(bs.drop_first())
    }
}

/// A bookmark as the launcher lists it: its name, its address, the text
/// searched (name and address joined by `;`), the launcher's icon class and
/// tags, and neither an icon nor a desktop file.
pub struct BookmarkEntry {
    pub name: String,
    pub url: String,
    pub search_string: String,
    pub icon: Option<String>,
    pub icon_class: Option<String>,
    pub tag_start: Option<String>,
    pub tag_end: Option<String>,
    pub desktop_file: Option<String>,
}

pub open spec fn opt_text(o: Option<String>) -> Option<Seq<char>> {
    match o {
        Some(s) => Some(s@),
        None => None,
    }
}

pub open spec fn entry_view(e: BookmarkEntry) -> (Seq<char>, Seq<char>) {
    (e.name@, e.url@)
}

pub open spec fn entries_view(s: Seq<BookmarkEntry>) -> Seq<(Seq<char>, Seq<char>)> {
    s.map_values(|e: BookmarkEntry| entry_view(e))
}

pub open spec fn well_searched(s: Seq<BookmarkEntry>) -> bool {
    forall|i: int| 0 <= i < s.len() ==> #[trigger] s[i].search_string@ == s[i].name@ + ";"@ + s[i].url@
}

/// Every entry carries the given icon class and tags, and no icon or
/// desktop file.
pub open spec fn from_launcher(
    s: Seq<BookmarkEntry>,
    icon_class: Option<Seq<char>>,
    tag_start: Option<Seq<char>>,
    tag_end: Option<Seq<char>>,
) -> bool {
    forall|i: int|
        0 <= i < s.len() ==> {
            &&& (#[trigger] s[i]).icon is None
            &&& s[i].desktop_file is None
            &&& opt_text(s[i].icon_class) == icon_class
            &&& opt_text(s[i].tag_start) == tag_start
            &&& opt_text(s[i].tag_end) == tag_end
        }
}

pub open spec fn pairs_view(s: Seq<(String, String)>) -> Seq<(Seq<char>, Seq<char>)> {
    s.map_values(|p: (String, String)| (p.0@, p.1@))
}

fn collect_node(b: &ChromeBookmark, out: &mut Vec<(String, String)>)
    ensures
        pairs_view(final(out)@) == pairs_view(old(out)@) + node_entries(*b),
    decreases *b,
{
    if str_eq(b.kind.as_str(), "folder") {
        match &b.children {
            Some(cs) => {
                let ghost start = out@;
                let mut i: usize = 0;
                assert(pairs_view(out@) =~= pairs_view(start) + list_entries(cs@.take(0)));
                while i < cs.len()
                    invariant
                        i <= cs@.len(),
                        b.children == Some(*cs),
                        pairs_view(out@) == pairs_view(start) + list_entries(cs@.take(i as int)),
                    decreases cs@.len() - i,
                {
                    proof {
                        assert(decreases_to!(*b => b.children));
                        assert(decreases_to!(b.children => b.children->0));
                        assert(decreases_to!(*cs => cs@));
                        assert(decreases_to!(cs@ => cs@[i as int]));
                        assert(decreases_to!(*b => cs@[i as int]));
                    }
                    collect_node(&cs[i], out);
                    proof {
                        lemma_list_entries_push(cs@, i as int);
                    }
                    i = i + 1;
                }
                assert(cs@.take(cs@.len() as int) =~= cs@);
            },
            None => {
                assert(pairs_view(out@) =~= pairs_view(out@) + Seq::empty());
            },
        }
    } else if str_eq(b.kind.as_str(), "url") {
        match &b.url {
            Some(u) => {
                let ghost before = out@;
                out.push((b.name.clone(), u.clone()));
                assert(pairs_view(out@) =~= pairs_view(before) + seq![(b.name@, u@)]);
            },
            None => {
                assert(pairs_view(out@) =~= pairs_view(out@) + Seq::empty());
            },
        }
    } else {
        assert(pairs_view(out@) =~= pairs_view(out@) + Seq::empty());
    }
}

proof fn lemma_list_entries_push(bs: Seq<ChromeBookmark>, i: int)
    requires
        0 <= i < bs.len(),
    ensures
        list_entries(bs.take(i + 1)) == list_entries(bs.take(i)) + node_entries(bs[i]),
    decreases i,
{
    if i == 0 {
        assert(bs.take(1).drop_first() =~= Seq::<ChromeBookmark>::empty());
        assert(list_entries(bs.take(1)) =~= node_entries(bs[0]) + list_entries(Seq::empty()));
    } else {
        let t = bs.drop_first();
        lemma_list_entries_push(t, i - 1);
        assert(bs.take(i + 1).drop_first() =~= t.take(i));
        assert(bs.take(i).drop_first() =~= t.take(i - 1));
        assert(bs.take(i + 1)[0] == bs[0]);
        assert(bs.take(i)[0] == bs[0]);
        assert(t[i - 1] == bs[i]);
    }
}

fn copy_text(o: &Option<String>) -> (r: Option<String>)
    ensures
        opt_text(r) == opt_text(*o),
{
    match o {
        Some(s) => Some(s.clone()),
        None => None,
    }
}

/// Whether a bookmark with this name and address is listed already.
fn listed(entries: &Vec<BookmarkEntry>, name: &String, url: &String) -> (r: bool)
    ensures
        r == entries_view(entries@).contains((name@, url@)),
{
    let mut i: usize = 0;
    while i < entries.len()
        invariant
            i <= entries@.len(),
            forall|k: int| 0 <= k < i ==> entries_view(entries@)[k] != (name@, url@),
        decreases entries@.len() - i,
    {
        if str_eq(entries[i].name.as_str(), name.as_str()) && str_eq(entries[i].url.as_str(), url.as_str()) {
            assert(entries_view(entries@)[i as int] == (name@, url@));
            return true;
        }
        i = i + 1;
    }
    false
}

/// The bookmarks of a Chromium bookmarks file, root after root, as the
/// launcher `raw` lists them: each once, at its first occurrence, with the
/// icon class of the launcher's arguments and the launcher's tags.
pub fn chrome_entries(roots: &Vec<ChromeBookmark>, raw: &RawLauncher) -> (r: Vec<BookmarkEntry>)
    ensures
        well_searched(r@),
        from_launcher(r@, arg_str(raw.args, "icon_class"@), opt_text(raw.tag_start), opt_text(raw.tag_end)),
        entries_view(r@) == first_occurrences(list_entries(roots@)),
        entries_view(r@).no_duplicates(),
{
    let mut all: Vec<(String, String)> = Vec::new();
    let mut i: usize = 0;
    assert(pairs_view(all@) =~= list_entries(roots@.take(0)));
    while i < roots.len()
        invariant
            i <= roots@.len(),
            pairs_view(all@) == list_entries(roots@.take(i as int)),
        decreases roots@.len() - i,
    {
        collect_node(&roots[i], &mut all);
        proof {
            lemma_list_entries_push(roots@, i as int);
        }
        i = i + 1;
    }
    assert(roots@.take(roots@.len() as int) =~= roots@);
    let icon_class = raw.args.get_str("icon_class");
    let ghost ic = arg_str(raw.args, "icon_class"@);
    let ghost ts = opt_text(raw.tag_start);
    let ghost te = opt_text(raw.tag_end);
    let ghost pv = pairs_view(all@);
    let mut out: Vec<BookmarkEntry> = Vec::new();
    let mut j: usize = 0;
    assert(entries_view(out@) =~= first_occurrences(pv.take(0)));
    while j < all.len()
        invariant
            j <= all@.len(),
            pv == pairs_view(all@),
            opt_text(icon_class) == ic,
            ts == opt_text(raw.tag_start),
            te == opt_text(raw.tag_end),
            well_searched(out@),
            from_launcher(out@, ic, ts, te),
            entries_view(out@) == first_occurrences(pv.take(j as int)),
        decreases all@.len() - j,
    {
        assert(pv.take(j + 1).drop_last() =~= pv.take(j as int));
        assert(pv.take(j + 1).last() == pv[j as int]);
        let name = &all[j].0;
        let url = &all[j].1;
        if !listed(&out, name, url) {
            let mut s = name.clone();
            s.append(";");
            s.append(url.as_str());
            let ghost before = out@;
            out.push(
                BookmarkEntry {
                    name: name.clone(),
                    url: url.clone(),
                    search_string: s,
                    icon: None,
                    icon_class: copy_text(&icon_class),
                    tag_start: copy_text(&raw.tag_start),
                    tag_end: copy_text(&raw.tag_end),
                    desktop_file: None,
                },
            );
            assert(entries_view(out@) =~= entries_view(before).push((name@, url@)));
            assert forall|k: int| 0 <= k < out@.len() implies #[trigger] out@[k].search_string@ == out@[k].name@ + ";"@ + out@[k].url@ by {
                if k < before.len() {
                    assert(out@[k] == before[k]);
                }
            }
            assert forall|k: int| 0 <= k < out@.len() implies {
                &&& (#[trigger] out@[k]).icon is None
                &&& out@[k].desktop_file is None
                &&& opt_text(out@[k].icon_class) == ic
                &&& opt_text(out@[k].tag_start) == ts
                &&& opt_text(out@[k].tag_end) == te
            } by {
                if k < before.len() {
                    assert(out@[k] == before[k]);
                }
            }
        }
        j = j + 1;
    }
    assert(pv.take(all@.len() as int) =~= pv);
    proof {
        crate::text::lemma_first_occurrences(pv);
    }
    out
}

} // verus!
