//! The plainer tiles and what they hold: web search, files, themes, the
//! clipboard, emojis, media players, API requests and the terminal.
use vstd::prelude::*;
use crate::regex_match::{captures, group, group_at, opt_views, regex_captures};
use crate::text::{replace, replace_str, str_eq};

verus! {

/// A web search tile.
pub struct Web {
    pub alias: Option<String>,
    pub method: String,
    pub name: String,
    pub engine: String,
    pub priority: u32,
}

/// A file a file tile lists.
pub struct FileData {
    pub name: String,
    pub loc: String,
}

/// The theme picker: where themes are and each theme's file by name.
pub struct ThemePicker {
    pub location: String,
    pub themes: Vec<(String, String)>,
}

/// The clipboard tile: what the clipboard holds and what may be done with
/// it.
pub struct ClipboardLauncher {
    pub clipboard_content: String,
    pub capabilities: Option<Vec<String>>,
}

/// An emoji as the emoji list stores it.
pub struct EmojiRaw {
    pub emoji: String,
    pub name: String,
}

/// What a media player reports.
pub struct MprisData {
    pub playback_status: String,
    pub metadata: MetaData,
}

/// What a media player reports of the current track.
pub struct MetaData {
    pub title: String,
    pub album: String,
    pub artists: Vec<String>,
    pub url: String,
    pub art: String,
}

/// A tile that shows an answer from a web API.
pub struct ApiGet {
    pub alias: Option<String>,
    pub method: String,
    pub uuid: String,
    pub name: String,
    pub url: String,
    pub title_key: String,
    pub body_key: String,
    pub icon: String,
    pub priority: u32,
    pub is_async: bool,
}

/// What `key`, a pattern, finds in an answer: its first group, empty where
/// the group took no part, or a note where the pattern finds nothing;
/// `None` where the pattern does not compile.
pub open spec fn key_text(response: Seq<char>, key: Seq<char>) -> Option<Seq<char>> {
    match regex_captures(key, response) {
        None => None,
        Some(None) => Some("Pattern "@ + key + " not found."@),
        Some(Some(g)) => Some(
            match group(g, 1) {
                Some(t) => t,
                None => Seq::empty(),
            },
        ),
    }
}

pub fn extract_key(response: &str, key: &str) -> (r: Option<String>)
    ensures
        match r {
            Some(t) => key_text(response@, key@) == Some(t@),
            None => key_text(response@, key@) is None,
        },
{
    match captures(key, response) {
        None => None,
        Some(None) => {
            let mut t = String::from_str("Pattern ");
            t.append(key);
            t.append(" not found.");
            Some(t)
        },
        Some(Some(g)) => match group_at(&g, 1) {
            Some(t) => Some(t),
            None => Some(String::new()),
        },
    }
}

/// How the request for an API tile went.
pub enum FetchOutcome {
    /// The answer's body.
    Body(String),
    /// The body could not be read; the error's text.
    BodyFailed(String),
    /// The request failed; the error's text.
    RequestFailed(String),
    TimedOut,
}

impl ApiGet {
    /// The address asked for a search: `{}` in the tile's address replaced
    /// by the search text.
    pub fn request_url(&self, keyword: &str) -> (r: String)
        ensures
            r@ == replace(self.url@, "{}"@, keyword@),
    {
        proof {
            reveal_strlit("{}");
        }
        replace_str(self.url.as_str(), "{}", keyword)
    }

    /// The title and text shown for an answer. In a body, `\"` is read as
    /// `'` before the keys are looked up; a key whose pattern does not
    /// compile gives no result.
    pub fn result(&self, outcome: FetchOutcome) -> (r: Option<(String, String)>)
        ensures
            match outcome {
                FetchOutcome::Body(b) => {
                    let body = replace(b@, "\\\""@, "'"@);
                    match (key_text(body, self.title_key@), key_text(body, self.body_key@)) {
                        (Some(t), Some(c)) => r matches Some((x, y)) && x@ == t && y@ == c,
                        _ => r is None,
                    }
                },
                FetchOutcome::BodyFailed(e) => r matches Some((x, y)) && x@
                    == "Failed to read response body."@ && y@ == "Error: "@ + e@,
                FetchOutcome::RequestFailed(e) => r matches Some((x, y)) && x@
                    == "Network request failed."@ && y@ == "Error: "@ + e@,
                FetchOutcome::TimedOut => r matches Some((x, y)) && x@
                    == "Network request timed out."@ && y@ == ""@,
            },
    {
        match outcome {
            FetchOutcome::Body(b) => {
                proof {
                    reveal_strlit("\\\"");
                }
                let body = replace_str(b.as_str(), "\\\"", "'");
                let t = extract_key(body.as_str(), self.title_key.as_str());
                let c = extract_key(body.as_str(), self.body_key.as_str());
                match (t, c) {
                    (Some(t), Some(c)) => Some((t, c)),
                    _ => None,
                }
            },
            FetchOutcome::BodyFailed(e) => {
                let mut m = String::from_str("Error: ");
                m.append(e.as_str());
                Some((String::from_str("Failed to read response body."), m))
            },
            FetchOutcome::RequestFailed(e) => {
                let mut m = String::from_str("Error: ");
                m.append(e.as_str());
                Some((String::from_str("Network request failed."), m))
            },
            FetchOutcome::TimedOut => Some(
                (String::from_str("Network request timed out."), String::from_str("")),
            ),
        }
    }
}

/// The user's settings file.
pub struct Config {
    pub defaults: Defaults,
}

pub struct Defaults {
    pub terminal: Option<String>,
}

/// Terminals tried, in order, where `$TERMINAL` gives none.
pub open spec fn known_terminals() -> Seq<Seq<char>> {
    seq![
        "kitty"@,
        "gnome-terminal"@,
        "xterm"@,
        "konsole"@,
        "alacritty"@,
        "urxvt"@,
        "mate-terminal"@,
        "terminator"@,
        "sakura"@,
        "terminology"@,
        "st"@,
        "xfce4-terminal"@,
        "guake"@,
        "x11-terminal"@,
        "macos-terminal"@,
        "iterm2"@,
        "lxterminal"@,
        "foot"@,
        "wezterm"@,
        "tilix"@,
    ]
}

pub fn terminal_candidates() -> (r: Vec<String>)
    ensures
        r@.map_values(|s: String| s@) == known_terminals(),
{
    let names: [&str; 20] = [
        "kitty",
        "gnome-terminal",
        "xterm",
        "konsole",
        "alacritty",
        "urxvt",
        "mate-terminal",
        "terminator",
        "sakura",
        "terminology",
        "st",
        "xfce4-terminal",
        "guake",
        "x11-terminal",
        "macos-terminal",
        "iterm2",
        "lxterminal",
        "foot",
        "wezterm",
        "tilix",
    ];
    let mut r: Vec<String> = Vec::new();
    let mut i: usize = 0;
    while i < 20
        invariant
            i <= 20,
            names@ == seq![
                "kitty",
                "gnome-terminal",
                "xterm",
                "konsole",
                "alacritty",
                "urxvt",
                "mate-terminal",
                "terminator",
                "sakura",
                "terminology",
                "st",
                "xfce4-terminal",
                "guake",
                "x11-terminal",
                "macos-terminal",
                "iterm2",
                "lxterminal",
                "foot",
                "wezterm",
                "tilix",
            ],
            r@.len() == i,
            forall|k: int| 0 <= k < i ==> #[trigger] r@[k]@ == names@[k]@,
        decreases 20 - i,
    {
        r.push(String::from_str(names[i]));
        i = i + 1;
    }
    assert(r@.map_values(|s: String| s@) =~= known_terminals());
    r
}

/// The first of the candidates that is installed.
pub open spec fn first_installed(candidates: Seq<Seq<char>>, installed: Seq<bool>) -> Option<Seq<char>>
    decreases candidates.len(),
{
    if candidates.len() == 0 || installed.len() == 0 {
        None
    } else if installed[0] {
        Some(candidates[0])
    } else {
        first_installed(candidates.drop_first(), installed.drop_first())
    }
}

fn pick_terminal(installed: &Vec<bool>) -> (r: Option<String>)
    ensures
        match r {
            Some(x) => first_installed(known_terminals(), installed@) == Some(x@),
            None => first_installed(known_terminals(), installed@) is None,
        },
{
    let names = terminal_candidates();
    let ghost all = known_terminals();
    let mut i: usize = 0;
    assert(all.skip(0) =~= all);
    assert(installed@.skip(0) =~= installed@);
    assert(all.len() == names@.len());
    while i < names.len() && i < installed.len()
        invariant
            i <= names@.len(),
            i <= installed@.len(),
            all.len() == names@.len(),
            names@.map_values(|s: String| s@) == all,
            all == known_terminals(),
            first_installed(all, installed@) == first_installed(
                all.skip(i as int),
                installed@.skip(i as int),
            ),
        decreases names@.len() - i,
    {
        assert(all.skip(i as int).drop_first() =~= all.skip(i + 1));
        assert(installed@.skip(i as int).drop_first() =~= installed@.skip(i + 1));
        assert(all.skip(i as int)[0] == names@[i as int]@);
        if installed[i] {
            return Some(names[i].clone());
        }
        i = i + 1;
    }
    assert(all.skip(i as int).len() == 0 || installed@.skip(i as int).len() == 0);
    None
}

/// The terminal used: `$TERMINAL` where it is set and installed, else the
/// first installed of the known terminals. `installed[i]` tells whether the
/// known terminal at `i` is installed.
pub fn get_terminal(env_terminal: Option<(String, bool)>, installed: &Vec<bool>) -> (r: Option<String>)
    ensures
        match env_terminal {
            Some((t, true)) => r matches Some(x) && x@ == t@,
            _ => match r {
                Some(x) => first_installed(known_terminals(), installed@) == Some(x@),
                None => first_installed(known_terminals(), installed@) is None,
            },
        },
{
    match env_terminal {
        Some((t, true)) => Some(t),
        _ => pick_terminal(installed),
    }
}

/// What the clipboard holds, without surrounding whitespace; nothing where
/// it could not be read.
pub fn clipboard_text(contents: Option<String>) -> (r: String)
    ensures
        r@ == crate::text::trim(
            match contents {
                Some(c) => c@,
                None => Seq::empty(),
            },
        ),
{
    match contents {
        Some(c) => crate::text::trim_str(c.as_str()),
        None => {
            let r = crate::text::trim_str("");
            proof {
                reveal_strlit("");
                assert(""@ =~= Seq::<char>::empty());
            }
            r
        },
    }
}

/// The clipboard tile, where the clipboard holds anything.
pub fn clipboard_launcher(clipboard_content: String, capabilities: Option<Vec<String>>) -> (r: Option<ClipboardLauncher>)
    ensures
        match r {
            Some(l) => clipboard_content@.len() > 0 && l.clipboard_content == clipboard_content
                && l.capabilities == capabilities,
            None => clipboard_content@.len() == 0,
        },
{
    if clipboard_content.as_str().is_empty() {
        None
    } else {
        Some(ClipboardLauncher { clipboard_content, capabilities })
    }
}

} // verus!
