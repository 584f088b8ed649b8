//! The search view: applications read from desktop files by pattern, the
//! modes that launcher aliases switch to, the tiles a search shows and the
//! keys of the result list.
use vstd::prelude::*;
use crate::num::{decimal, u64_text};
use crate::regex_match::{captures, group, group_at, regex_captures};
use crate::text::{
    chars_of, contains, contains_str, find, has_at, lowercase, str_eq, string_of, to_lowercase,
    trim, trim_str,
};

verus! {

/// An application: its icon and its command.
pub struct AppData {
    pub icon: String,
    pub command: String,
}

/// What a field's pattern finds in a desktop file: the text of its first
/// group, or nothing.
pub open spec fn field_of(pattern: Seq<char>, content: Seq<char>) -> Seq<char> {
    match regex_captures(pattern, content) {
        Some(Some(g)) => match group(g, 1) {
            Some(t) => t,
            None => Seq::empty(),
        },
        _ => Seq::empty(),
    }
}

pub fn parse_field(content: &str, pattern: &str) -> (r: String)
    ensures
        r@ == field_of(pattern@, content@),
{
    match captures(pattern, content) {
        Some(Some(g)) => match group_at(&g, 1) {
            Some(t) => t,
            None => String::new(),
        },
        _ => String::new(),
    }
}

pub const NAME_PATTERN: &'static str = "(?i)Name\\s*=\\s*(.*)\\n";

pub const ICON_PATTERN: &'static str = "(?i)Icon\\s*=\\s*(.*)\\n";

pub const EXEC_PATTERN: &'static str = "(?i)Exec\\s*=\\s*(.*)\\n";

pub const DISPLAY_PATTERN: &'static str = "(?i)NoDisplay\\s*=\\s*(.*)\\n";

pub const TERMINAL_PATTERN: &'static str = "(?i)Terminal\\s*=\\s*(.*)\\n";

pub open spec fn views(v: Seq<String>) -> Seq<Seq<char>> {
    v.map_values(|s: String| s@)
}

/// The application a desktop file describes: none where it asks not to be
/// shown, has no name or is ignored by name; a terminal application runs
/// in the configured terminal where there is one.
pub open spec fn desktop_app(
    content: Seq<char>,
    ignored: Seq<Seq<char>>,
    terminal: Option<Seq<char>>,
) -> Option<(Seq<char>, Seq<char>, Seq<char>)> {
    let name = field_of(NAME_PATTERN@, content);
    if field_of(DISPLAY_PATTERN@, content) == "true"@ {
        None
    } else if name.len() == 0 || ignored.contains(name) {
        None
    } else {
        let exec_path = field_of(EXEC_PATTERN@, content);
        let exec = if field_of(TERMINAL_PATTERN@, content) == "true"@ {
            match terminal {
                Some(t) => t + " "@ + exec_path,
                None => exec_path,
            }
        } else {
            exec_path
        };
        Some((name, field_of(ICON_PATTERN@, content), exec))
    }
}

fn listed(v: &Vec<String>, s: &str) -> (r: bool)
    ensures
        r == views(v@).contains(s@),
{
    let mut i: usize = 0;
    while i < v.len()
        invariant
            i <= v@.len(),
            forall|j: int| 0 <= j < i ==> v@[j]@ != s@,
        decreases v@.len() - i,
    {
        if str_eq(v[i].as_str(), s) {
            assert(views(v@)[i as int] == s@);
            return true;
        }
        i = i + 1;
    }
    assert forall|j: int| 0 <= j < views(v@).len() implies views(v@)[j] != s@ by {
        assert(views(v@)[j] == v@[j]@);
    }
    false
}

/// Reads one desktop file; `ignored` holds the names not to list.
pub fn get_application(content: &str, ignored: &Vec<String>, terminal: Option<&str>) -> (r: Option<
    (String, AppData),
>)
    ensures
        match r {
            Some((n, a)) => desktop_app(
                content@,
                views(ignored@),
                match terminal {
                    Some(t) => Some(t@),
                    None => None,
                },
            ) == Some((n@, a.icon@, a.command@)),
            None => desktop_app(
                content@,
                views(ignored@),
                match terminal {
                    Some(t) => Some(t@),
                    None => None,
                },
            ) is None,
        },
{
    if str_eq(parse_field(content, DISPLAY_PATTERN).as_str(), "true") {
        return None;
    }
    let name = parse_field(content, NAME_PATTERN);
    if name.as_str().is_empty() || listed(ignored, name.as_str()) {
        return None;
    }
    let icon = parse_field(content, ICON_PATTERN);
    let exec_path = parse_field(content, EXEC_PATTERN);
    let exec = if str_eq(parse_field(content, TERMINAL_PATTERN).as_str(), "true") {
        match terminal {
            Some(t) => {
                let mut e = String::from_str(t);
                e.append(" ");
                e.append(exec_path.as_str());
                e
            },
            None => exec_path,
        }
    } else {
        exec_path
    };
    Some((name, AppData { icon, command: exec }))
}

/// What a label of a result row holds: a key and a value around ` | `,
/// where the text has exactly one such separator.
pub open spec fn label_pair(text: Seq<char>) -> Option<(Seq<char>, Seq<char>)> {
    if contains(text, " | "@) {
        let i = choose|i: int|
            has_at(text, " | "@, i) && forall|k: int| 0 <= k < i ==> !has_at(text, " | "@, k);
        if contains(text.skip(i + 3), " | "@) {
            None
        } else {
            Some((text.take(i), text.skip(i + 3)))
        }
    } else {
        None
    }
}

pub fn read_from_label(text: &str) -> (r: Option<(String, String)>)
    ensures
        match r {
            Some((k, v)) => label_pair(text@) == Some((k@, v@)),
            None => label_pair(text@) is None,
        },
{
    proof {
        reveal_strlit(" | ");
    }
    let t = chars_of(text);
    let sep = chars_of(" | ");
    match find(t.as_slice(), sep.as_slice()) {
        None => None,
        Some(i) => {
            proof {
                let j = choose|j: int|
                    has_at(text@, " | "@, j) && forall|k: int| 0 <= k < j ==> !has_at(
                        text@,
                        " | "@,
                        k,
                    );
                if j < i {
                } else if j > i {
                    assert(!has_at(text@, " | "@, i as int));
                }
                assert(j == i);
            }
            assert(sep@.len() == 3);
            assert(i + 3 <= t.len());
            let rest = vstd::slice::slice_subrange(t.as_slice(), i + 3, t.len());
            assert(rest@ =~= text@.skip(i + 3));
            if crate::text::contains_chars(rest, sep.as_slice()) {
                None
            } else {
                let head = vstd::slice::slice_subrange(t.as_slice(), 0, i);
                assert(head@ =~= text@.take(i as int));
                Some((string_of(head), string_of(rest)))
            }
        },
    }
}

/// A launcher as the search view sees it.
pub struct LauncherInfo {
    pub name: String,
    pub alias: Option<String>,
}

/// The modes: each launcher with a non-empty alias is entered by typing
/// the alias and a space.
pub open spec fn modes_of(ls: Seq<LauncherInfo>) -> Seq<(Seq<char>, Seq<char>)>
    decreases ls.len(),
{
    if ls.len() == 0 {
        Seq::empty()
    } else {
        let rest = modes_of(ls.drop_last());
        match ls.last().alias {
            Some(a) => if a@.len() > 0 {
                rest.push((a@ + " "@, ls.last().name@))
            } else {
                rest
            },
            None => rest,
        }
    }
}

pub fn collect_modes(launchers: &Vec<LauncherInfo>) -> (r: Vec<(String, String)>)
    ensures
        r@.map_values(|m: (String, String)| (m.0@, m.1@)) == modes_of(launchers@),
{
    let mut out: Vec<(String, String)> = Vec::new();
    let mut i: usize = 0;
    while i < launchers.len()
        invariant
            i <= launchers@.len(),
            out@.map_values(|m: (String, String)| (m.0@, m.1@)) == modes_of(launchers@.take(i as int)),
        decreases launchers@.len() - i,
    {
        proof {
            assert(launchers@.take(i + 1).drop_last() =~= launchers@.take(i as int));
        }
        let ghost before = out@;
        match &launchers[i].alias {
            Some(a) => {
                if !a.as_str().is_empty() {
                    let mut key = a.clone();
                    key.append(" ");
                    out.push((key, launchers[i].name.clone()));
                    assert(out@.map_values(|m: (String, String)| (m.0@, m.1@)) =~= before.map_values(
                        |m: (String, String)| (m.0@, m.1@),
                    ).push((a@ + " "@, launchers@[i as int].name@)));
                }
            },
            None => {},
        }
        i = i + 1;
    }
    assert(launchers@.take(launchers@.len() as int) =~= launchers@);
    out
}

/// The name of the last mode entered by `text`, where one is.
pub open spec fn mode_for(modes: Seq<(String, String)>, text: Seq<char>) -> Option<Seq<char>>
    decreases modes.len(),
{
    if modes.len() == 0 {
        None
    } else if modes.last().0@ == text {
        Some(modes.last().1@)
    } else {
        mode_for(modes.drop_last(), text)
    }
}

/// What typing in the search bar does.
pub enum TextChange {
    /// The text names a mode: switch to it (titled with the launcher's name)
    /// and clear the text.
    SwitchMode { mode: String, title: String },
    /// Show the results for the text in the current mode.
    Show,
}

pub fn on_text_changed(modes: &Vec<(String, String)>, text: &str) -> (r: TextChange)
    ensures
        match r {
            TextChange::SwitchMode { mode, title } => mode@ == text@ && mode_for(modes@, text@)
                == Some(title@),
            TextChange::Show => mode_for(modes@, text@) is None,
        },
{
    let mut i: usize = modes.len();
    assert(modes@.take(i as int) =~= modes@);
    while i > 0
        invariant
            i <= modes@.len(),
            mode_for(modes@, text@) == mode_for(modes@.take(i as int), text@),
        decreases i,
    {
        assert(modes@.take(i as int).drop_last() =~= modes@.take(i - 1));
        if str_eq(modes[i - 1].0.as_str(), text) {
            return TextChange::SwitchMode {
                mode: String::from_str(text),
                title: modes[i - 1].1.clone(),
            };
        }
        i = i - 1;
    }
    TextChange::Show
}

/// Whether a launcher shows in a mode: in `all` every launcher does, else
/// the one whose alias is the mode without surrounding whitespace.
pub open spec fn shows_in(alias: Option<String>, mode: Seq<char>) -> bool {
    let m = trim(mode);
    m == "all"@ || (match alias {
        Some(a) => a@,
        None => Seq::empty(),
    }) == m
}

pub fn launcher_shows(alias: &Option<String>, mode: &str) -> (r: bool)
    ensures
        r == shows_in(*alias, mode@),
{
    let m = trim_str(mode);
    let a: &str = match alias {
        Some(a) => a.as_str(),
        None => "",
    };
    proof {
        reveal_strlit("");
        assert(""@ =~= Seq::<char>::empty());
    }
    str_eq(a, m.as_str()) || str_eq(m.as_str(), "all")
}

/// The shortcut shown on the tile at `index`: the first five get one.
pub open spec fn shortcut_spec(index: int) -> Option<Seq<char>> {
    if index < 5 {
        Some("ctrl + "@ + crate::num::int_text(index + 1))
    } else {
        None
    }
}

pub fn shortcut_label(index: i32) -> (r: Option<String>)
    requires
        index < i32::MAX,
    ensures
        match r {
            Some(s) => shortcut_spec(index as int) == Some(s@),
            None => shortcut_spec(index as int) is None,
        },
{
    if index < 5 {
        let n = crate::num::i64_text(index as i64 + 1);
        let mut s = String::from_str("ctrl + ");
        s.append(n.as_str());
        Some(s)
    } else {
        None
    }
}

/// A line of a tile's attributes: key and value around ` | `.
pub fn attr_line(key: &str, value: &str) -> (r: String)
    ensures
        r@ == key@ + " | "@ + value@,
{
    let mut s = String::from_str(key);
    s.append(" | ");
    s.append(value);
    s
}

/// A tile of the result list.
pub struct TileData {
    pub title: String,
    pub icon: String,
    pub launcher_name: String,
    pub shortcut: Option<String>,
    pub attrs: Vec<String>,
}

pub open spec fn attr_views(t: TileData) -> Seq<Seq<char>> {
    views(t.attrs@)
}

/// The web tile for a search: none on an empty search.
pub fn web_tile(name: &str, method: &str, engine: &str, index: i32, keyword: &str) -> (r: (i32, Option<
    TileData,
>))
    requires
        index < i32::MAX,
    ensures
        keyword@.len() == 0 ==> r.0 == index && r.1 is None,
        keyword@.len() > 0 ==> r.0 == index + 1 && (r.1 matches Some(t) && t.title@ == keyword@
            && t.icon@ == "google"@ && t.launcher_name@ == name@ && match t.shortcut {
            Some(s) => shortcut_spec(index as int) == Some(s@),
            None => shortcut_spec(index as int) is None,
        } && attr_views(t) == seq![
            "method"@ + " | "@ + method@,
            "engine"@ + " | "@ + engine@,
            "keyword"@ + " | "@ + keyword@,
        ]),
{
    if keyword.is_empty() {
        return (index, None);
    }
    let mut attrs: Vec<String> = Vec::new();
    attrs.push(attr_line("method", method));
    attrs.push(attr_line("engine", engine));
    attrs.push(attr_line("keyword", keyword));
    let t = TileData {
        title: String::from_str(keyword),
        icon: String::from_str("google"),
        launcher_name: String::from_str(name),
        shortcut: shortcut_label(index),
        attrs,
    };
    assert(attr_views(t) =~= seq![
        "method"@ + " | "@ + method@,
        "engine"@ + " | "@ + engine@,
        "keyword"@ + " | "@ + keyword@,
    ]);
    (index + 1, Some(t))
}

/// Whether a command's key shows for a search: the search text, lowercased,
/// occurs in the key, lowercased.
pub open spec fn key_matches(key: Seq<char>, keyword: Seq<char>) -> bool {
    contains(lowercase(key), lowercase(keyword))
}

/// The positions of the commands whose key shows for a search, in order.
pub open spec fn matching(commands: Seq<(String, AppData)>, keyword: Seq<char>) -> Seq<int>
    decreases commands.len(),
{
    if commands.len() == 0 {
        Seq::empty()
    } else {
        let rest = matching(commands.drop_last(), keyword);
        if key_matches(commands.last().0@, keyword) {
            rest.push(commands.len() - 1)
        } else {
            rest
        }
    }
}

/// Whether `t` is the tile of `command` at position `n` of the result list.
pub open spec fn command_tile(t: TileData, command: (String, AppData), name: Seq<char>, method: Seq<char>, n: int) -> bool {
    &&& t.title@ == command.0@
    &&& t.icon@ == command.1.icon@
    &&& t.launcher_name@ == name
    &&& match t.shortcut {
        Some(s) => shortcut_spec(n) == Some(s@),
        None => shortcut_spec(n) is None,
    }
    &&& attr_views(t) == seq![
        "method"@ + " | "@ + method,
        "app_name"@ + " | "@ + command.0@,
        "exec"@ + " | "@ + command.1.command@,
    ]
}

proof fn lemma_matching_below(commands: Seq<(String, AppData)>, keyword: Seq<char>)
    ensures
        forall|k: int|
            0 <= k < matching(commands, keyword).len() ==> 0 <= #[trigger] matching(commands, keyword)[k]
                < commands.len(),
    decreases commands.len(),
{
    if commands.len() > 0 {
        let t = commands.drop_last();
        lemma_matching_below(t, keyword);
        let rest = matching(t, keyword);
        assert forall|k: int| 0 <= k < matching(commands, keyword).len() implies 0 <= #[trigger] matching(
            commands,
            keyword,
        )[k] < commands.len() by {
            if k < rest.len() {
                assert(matching(commands, keyword)[k] == rest[k]);
            }
        }
    }
}

/// The tiles of an application or command launcher for a search: one per
/// matching entry, in the given order, numbered on from `index`.
pub fn app_tiles(
    commands: &Vec<(String, AppData)>,
    name: &str,
    method: &str,
    index: i32,
    keyword: &str,
) -> (r: (i32, Vec<TileData>))
    requires
        index + commands@.len() < i32::MAX,
    ensures
        r.1@.len() == matching(commands@, keyword@).len(),
        r.0 == index + r.1@.len(),
        forall|k: int|
            0 <= k < r.1@.len() ==> command_tile(
                #[trigger] r.1@[k],
                commands@[matching(commands@, keyword@)[k]],
                name@,
                method@,
                index + k,
            ),
{
    let kw = to_lowercase(keyword);
    let mut tiles: Vec<TileData> = Vec::new();
    let mut idx = index;
    let mut i: usize = 0;
    let ghost cs = commands@;
    assert(cs.take(0) =~= Seq::<(String, AppData)>::empty());
    while i < commands.len()
        invariant
            i <= commands@.len(),
            cs == commands@,
            index + commands@.len() < i32::MAX,
            kw@ == lowercase(keyword@),
            idx == index + tiles@.len(),
            tiles@.len() == matching(cs.take(i as int), keyword@).len(),
            tiles@.len() <= i,
            forall|k: int|
                0 <= k < tiles@.len() ==> command_tile(
                    #[trigger] tiles@[k],
                    cs[matching(cs.take(i as int), keyword@)[k]],
                    name@,
                    method@,
                    index + k,
                ),
        decreases commands@.len() - i,
    {
        let ghost prev = cs.take(i as int);
        let ghost next = cs.take(i + 1);
        assert(next.drop_last() =~= prev);
        assert(next.last() == cs[i as int]);
        proof {
            lemma_matching_below(prev, keyword@);
            lemma_matching_below(next, keyword@);
        }
        let key = &commands[i].0;
        let kl = to_lowercase(key.as_str());
        if contains_str(kl.as_str(), kw.as_str()) {
            let mut attrs: Vec<String> = Vec::new();
            attrs.push(attr_line("method", method));
            attrs.push(attr_line("app_name", key.as_str()));
            attrs.push(attr_line("exec", commands[i].1.command.as_str()));
            let t = TileData {
                title: key.clone(),
                icon: commands[i].1.icon.clone(),
                launcher_name: String::from_str(name),
                shortcut: shortcut_label(idx),
                attrs,
            };
            assert(attr_views(t) =~= seq![
                "method"@ + " | "@ + method@,
                "app_name"@ + " | "@ + commands@[i as int].0@,
                "exec"@ + " | "@ + commands@[i as int].1.command@,
            ]);
            let ghost before = tiles@;
            tiles.push(t);
            assert(key_matches(commands@[i as int].0@, keyword@));
            assert(matching(next, keyword@) == matching(prev, keyword@).push(i as int));
            assert forall|k: int| 0 <= k < tiles@.len() implies command_tile(
                #[trigger] tiles@[k],
                cs[matching(next, keyword@)[k]],
                name@,
                method@,
                index + k,
            ) by {
                if k < before.len() {
                    assert(tiles@[k] == before[k]);
                    assert(matching(next, keyword@)[k] == matching(prev, keyword@)[k]);
                } else {
                    assert(tiles@[k] == t);
                }
            }
            idx = idx + 1;
        } else {
            assert(!key_matches(commands@[i as int].0@, keyword@));
            assert(matching(next, keyword@) == matching(prev, keyword@));
        }
        i = i + 1;
    }
    assert(cs.take(cs.len() as int) =~= cs);
    (idx, tiles)
}

/// The tile of an API launcher for a search: none on an empty search.
pub fn bulk_text_tile(name: &str, method: &str, index: i32, keyword: &str) -> (r: (i32, Option<TileData>))
    requires
        index < i32::MAX,
    ensures
        keyword@.len() == 0 ==> r.0 == index && r.1 is None,
        keyword@.len() > 0 ==> r.0 == index + 1 && (r.1 matches Some(t) && t.title@ == keyword@
            && t.icon@ == "system-shutdown"@ && t.launcher_name@ == name@ && match t.shortcut {
            Some(s) => shortcut_spec(index as int) == Some(s@),
            None => shortcut_spec(index as int) is None,
        } && attr_views(t) == seq!["method"@ + " | "@ + method@, "keyword"@ + " | "@ + keyword@]),
{
    if keyword.is_empty() {
        return (index, None);
    }
    let mut attrs: Vec<String> = Vec::new();
    attrs.push(attr_line("method", method));
    attrs.push(attr_line("keyword", keyword));
    let t = TileData {
        title: String::from_str(keyword),
        icon: String::from_str("system-shutdown"),
        launcher_name: String::from_str(name),
        shortcut: shortcut_label(index),
        attrs,
    };
    assert(attr_views(t) =~= seq!["method"@ + " | "@ + method@, "keyword"@ + " | "@ + keyword@]);
    (index + 1, Some(t))
}

/// The attributes of a calculator tile, whose result was computed by the
/// caller.
pub fn calc_attrs(method: &str, result: &str) -> (r: Vec<String>)
    ensures
        views(r@) == seq!["method"@ + " | "@ + method@, "result"@ + " | "@ + result@],
{
    let mut attrs: Vec<String> = Vec::new();
    attrs.push(attr_line("method", method));
    attrs.push(attr_line("result", result));
    assert(views(attrs@) =~= seq!["method"@ + " | "@ + method@, "result"@ + " | "@ + result@]);
    attrs
}

/// Keys of the result list.
pub enum SearchKey {
    Up,
    Down,
    BackSpace,
    Return,
    /// A digit key, with whether Control is held.
    Digit { digit: u32, control: bool },
    Other,
}

/// What a key does in the result list.
pub enum SearchAction {
    /// Move the selection by this many rows.
    Move(i32),
    /// Go back to all launchers and show results again.
    ResetMode,
    /// Carry out the selected row.
    ExecuteSelected,
    /// Carry out the row at this index.
    ExecuteIndex(i32),
    Nothing,
}

/// Up and down move the selection; backspace in an empty search leaves the
/// mode; return carries out the selection; Control with 1 to 5 carries out
/// that row.
pub fn search_key(key: SearchKey, text_empty: bool) -> (r: SearchAction)
    ensures
        match key {
            SearchKey::Up => r matches SearchAction::Move(o) && o == -1,
            SearchKey::Down => r matches SearchAction::Move(o) && o == 1,
            SearchKey::BackSpace => if text_empty {
                r is ResetMode
            } else {
                r is Nothing
            },
            SearchKey::Return => r is ExecuteSelected,
            SearchKey::Digit { digit, control } => if control && 1 <= digit <= 5 {
                r matches SearchAction::ExecuteIndex(i) && i == digit - 1
            } else {
                r is Nothing
            },
            SearchKey::Other => r is Nothing,
        },
{
    match key {
        SearchKey::Up => SearchAction::Move(-1),
        SearchKey::Down => SearchAction::Move(1),
        SearchKey::BackSpace => if text_empty {
            SearchAction::ResetMode
        } else {
            SearchAction::Nothing
        },
        SearchKey::Return => SearchAction::ExecuteSelected,
        SearchKey::Digit { digit, control } => if control && 1 <= digit && digit <= 5 {
            SearchAction::ExecuteIndex((digit - 1) as i32)
        } else {
            SearchAction::Nothing
        },
        SearchKey::Other => SearchAction::Nothing,
    }
}

} // verus!
