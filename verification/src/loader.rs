//! Launcher configurations: the settings each kind of launcher reads from
//! its arguments, and where the configurations come from.
use vstd::prelude::*;
use crate::bulk_text::BulkTextLauncher;
use crate::counter::CountMap;
use crate::desktop::ApplicationAction;
use crate::error::{SherlockError, SherlockErrorType};
use crate::text::{dedup_strings, first_occurrences, str_eq};

verus! {

/// A launcher's arguments, as JSON values. Numbers are kept where they are
/// whole and non-negative.
pub enum ArgValue {
    Null,
    Bool(bool),
    Number(Option<u64>),
    Str(String),
    Array(Vec<ArgValue>),
    Object(Vec<(String, ArgValue)>),
}

/// The value under `key` of an object: the first entry with that key.
pub open spec fn lookup_arg(entries: Seq<(String, ArgValue)>, key: Seq<char>) -> Option<ArgValue>
    decreases entries.len(),
{
    if entries.len() == 0 {
        None
    } else if entries[0].0@ == key {
        Some(entries[0].1)
    } else {
        lookup_arg(entries.drop_first(), key)
    }
}

pub open spec fn arg_get(v: ArgValue, key: Seq<char>) -> Option<ArgValue> {
    match v {
        ArgValue::Object(entries) => lookup_arg(entries@, key),
        _ => None,
    }
}

/// The text under `key`, where that value is a string.
pub open spec fn arg_str(v: ArgValue, key: Seq<char>) -> Option<Seq<char>> {
    match arg_get(v, key) {
        Some(ArgValue::Str(s)) => Some(s@),
        _ => None,
    }
}

pub open spec fn str_or(o: Option<Seq<char>>, d: Seq<char>) -> Seq<char> {
    match o {
        Some(s) => s,
        None => d,
    }
}

impl ArgValue {
    pub fn get(&self, key: &str) -> (r: Option<&ArgValue>)
        ensures
            match r {
                Some(v) => arg_get(*self, key@) == Some(*v),
                None => arg_get(*self, key@) is None,
            },
    {
        match self {
            ArgValue::Object(entries) => {
                let mut i: usize = 0;
                assert(entries@.skip(0) =~= entries@);
                while i < entries.len()
                    invariant
                        i <= entries@.len(),
                        arg_get(*self, key@) == lookup_arg(entries@, key@),
                        lookup_arg(entries@, key@) == lookup_arg(entries@.skip(i as int), key@),
                    decreases entries@.len() - i,
                {
                    assert(entries@.skip(i as int).drop_first() =~= entries@.skip(i + 1));
                    assert(entries@.skip(i as int)[0] == entries@[i as int]);
                    if str_eq(entries[i].0.as_str(), key) {
                        assert(lookup_arg(entries@.skip(i as int), key@) == Some(entries@[i as int].1));
                        return Some(&entries[i].1);
                    }
                    i = i + 1;
                }
                assert(entries@.skip(i as int) =~= Seq::<(String, ArgValue)>::empty());
                None
            },
            _ => None,
        }
    }

    /// The text under `key`, where it is a string.
    pub fn get_str(&self, key: &str) -> (r: Option<String>)
        ensures
            match r {
                Some(s) => arg_str(*self, key@) == Some(s@),
                None => arg_str(*self, key@) is None,
            },
    {
        match self.get(key) {
            Some(ArgValue::Str(s)) => Some(s.clone()),
            _ => None,
        }
    }

    /// The text under `key`, or `default`.
    pub fn str_or(&self, key: &str, default: &str) -> (r: String)
        ensures
            r@ == str_or(arg_str(*self, key@), default@),
    {
        match self.get_str(key) {
            Some(s) => s,
            None => String::from_str(default),
        }
    }
}

/// What a launcher's configuration holds besides its arguments. The
/// priority is taken as a whole number.
pub struct RawLauncher {
    pub name: Option<String>,
    pub alias: Option<String>,
    pub tag_start: Option<String>,
    pub tag_end: Option<String>,
    pub display_name: Option<String>,
    pub on_return: Option<String>,
    pub next_content: Option<String>,
    pub kind: String,
    pub priority: u32,
    pub exit: bool,
    pub shortcut: bool,
    pub spawn_focus: bool,
    pub is_async: bool,
    pub home: bool,
    pub only_home: bool,
    pub args: ArgValue,
    pub actions: Option<Vec<ApplicationAction>>,
    pub add_actions: Option<Vec<ApplicationAction>>,
}

/// Where a configuration leaves a setting out, the shortcut and the
/// initial focus are on.
pub fn default_true() -> (r: bool)
    ensures
        r,
{
    true
}

/// The kinds of launcher a configuration can name.
#[derive(PartialEq, Eq, Structural, Clone, Copy)]
pub enum LauncherKind {
    App,
    AudioSink,
    Bookmarks,
    BulkText,
    Calculation,
    Categories,
    Clipboard,
    Command,
    Debug,
    TeamsEvent,
    Process,
    Weather,
    Web,
    Empty,
}

/// The kind that a configuration's type names; unknown types give an empty
/// launcher.
pub open spec fn kind_of(t: Seq<char>) -> LauncherKind {
    if t == "app_launcher"@ {
        LauncherKind::App
    } else if t == "audio_sink"@ {
        LauncherKind::AudioSink
    } else if t == "bookmarks"@ {
        LauncherKind::Bookmarks
    } else if t == "bulk_text"@ {
        LauncherKind::BulkText
    } else if t == "calculation"@ {
        LauncherKind::Calculation
    } else if t == "categories"@ {
        LauncherKind::Categories
    } else if t == "clipboard-execution"@ {
        LauncherKind::Clipboard
    } else if t == "command"@ {
        LauncherKind::Command
    } else if t == "debug"@ {
        LauncherKind::Debug
    } else if t == "teams_event"@ {
        LauncherKind::TeamsEvent
    } else if t == "process"@ {
        LauncherKind::Process
    } else if t == "weather"@ {
        LauncherKind::Weather
    } else if t == "web_launcher"@ {
        LauncherKind::Web
    } else {
        LauncherKind::Empty
    }
}

/// The type name under which each kind of launcher is configured.
pub open spec fn kind_name(k: LauncherKind) -> Seq<char> {
    match k {
        LauncherKind::App => "app_launcher"@,
        LauncherKind::AudioSink => "audio_sink"@,
        LauncherKind::Bookmarks => "bookmarks"@,
        LauncherKind::BulkText => "bulk_text"@,
        LauncherKind::Calculation => "calculation"@,
        LauncherKind::Categories => "categories"@,
        LauncherKind::Clipboard => "clipboard-execution"@,
        LauncherKind::Command => "command"@,
        LauncherKind::Debug => "debug"@,
        LauncherKind::TeamsEvent => "teams_event"@,
        LauncherKind::Process => "process"@,
        LauncherKind::Weather => "weather"@,
        LauncherKind::Web => "web_launcher"@,
        LauncherKind::Empty => Seq::empty(),
    }
}

/// Every kind of launcher is reached by its own type name, and a type
/// gives a launcher other than the empty one only where it is the name of
/// that launcher's kind: names and kinds correspond one to one.
pub proof fn lemma_kind_names_round_trip(k: LauncherKind, t: Seq<char>)
    ensures
        k != LauncherKind::Empty ==> kind_of(kind_name(k)) == k,
        kind_of(t) != LauncherKind::Empty ==> kind_name(kind_of(t)) == t,
{
    reveal_strlit("app_launcher");
    reveal_strlit("audio_sink");
    reveal_strlit("bookmarks");
    reveal_strlit("bulk_text");
    reveal_strlit("calculation");
    reveal_strlit("categories");
    reveal_strlit("clipboard-execution");
    reveal_strlit("command");
    reveal_strlit("debug");
    reveal_strlit("teams_event");
    reveal_strlit("process");
    reveal_strlit("weather");
    reveal_strlit("web_launcher");
    assert("audio_sink"@ != "app_launcher"@) by { assert("audio_sink"@.len() != "app_launcher"@.len()); }
    assert("bookmarks"@ != "app_launcher"@) by { assert("bookmarks"@.len() != "app_launcher"@.len()); }
    assert("bookmarks"@ != "audio_sink"@) by { assert("bookmarks"@.len() != "audio_sink"@.len()); }
    assert("bulk_text"@ != "app_launcher"@) by { assert("bulk_text"@.len() != "app_launcher"@.len()); }
    assert("bulk_text"@ != "audio_sink"@) by { assert("bulk_text"@.len() != "audio_sink"@.len()); }
    assert("bulk_text"@ != "bookmarks"@) by { assert("bulk_text"@[1] != "bookmarks"@[1]); }
    assert("calculation"@ != "app_launcher"@) by { assert("calculation"@.len() != "app_launcher"@.len()); }
    assert("calculation"@ != "audio_sink"@) by { assert("calculation"@.len() != "audio_sink"@.len()); }
    assert("calculation"@ != "bookmarks"@) by { assert("calculation"@.len() != "bookmarks"@.len()); }
    assert("calculation"@ != "bulk_text"@) by { assert("calculation"@.len() != "bulk_text"@.len()); }
    assert("categories"@ != "app_launcher"@) by { assert("categories"@.len() != "app_launcher"@.len()); }
    assert("categories"@ != "audio_sink"@) by { assert("categories"@[0] != "audio_sink"@[0]); }
    assert("categories"@ != "bookmarks"@) by { assert("categories"@.len() != "bookmarks"@.len()); }
    assert("categories"@ != "bulk_text"@) by { assert("categories"@.len() != "bulk_text"@.len()); }
    assert("categories"@ != "calculation"@) by { assert("categories"@.len() != "calculation"@.len()); }
    assert("clipboard-execution"@ != "app_launcher"@) by { assert("clipboard-execution"@.len() != "app_launcher"@.len()); }
    assert("clipboard-execution"@ != "audio_sink"@) by { assert("clipboard-execution"@.len() != "audio_sink"@.len()); }
    assert("clipboard-execution"@ != "bookmarks"@) by { assert("clipboard-execution"@.len() != "bookmarks"@.len()); }
    assert("clipboard-execution"@ != "bulk_text"@) by { assert("clipboard-execution"@.len() != "bulk_text"@.len()); }
    assert("clipboard-execution"@ != "calculation"@) by { assert("clipboard-execution"@.len() != "calculation"@.len()); }
    assert("clipboard-execution"@ != "categories"@) by { assert("clipboard-execution"@.len() != "categories"@.len()); }
    assert("command"@ != "app_launcher"@) by { assert("command"@.len() != "app_launcher"@.len()); }
    assert("command"@ != "audio_sink"@) by { assert("command"@.len() != "audio_sink"@.len()); }
    assert("command"@ != "bookmarks"@) by { assert("command"@.len() != "bookmarks"@.len()); }
    assert("command"@ != "bulk_text"@) by { assert("command"@.len() != "bulk_text"@.len()); }
    assert("command"@ != "calculation"@) by { assert("command"@.len() != "calculation"@.len()); }
    assert("command"@ != "categories"@) by { assert("command"@.len() != "categories"@.len()); }
    assert("command"@ != "clipboard-execution"@) by { assert("command"@.len() != "clipboard-execution"@.len()); }
    assert("debug"@ != "app_launcher"@) by { assert("debug"@.len() != "app_launcher"@.len()); }
    assert("debug"@ != "audio_sink"@) by { assert("debug"@.len() != "audio_sink"@.len()); }
    assert("debug"@ != "bookmarks"@) by { assert("debug"@.len() != "bookmarks"@.len()); }
    assert("debug"@ != "bulk_text"@) by { assert("debug"@.len() != "bulk_text"@.len()); }
    assert("debug"@ != "calculation"@) by { assert("debug"@.len() != "calculation"@.len()); }
    assert("debug"@ != "categories"@) by { assert("debug"@.len() != "categories"@.len()); }
    assert("debug"@ != "clipboard-execution"@) by { assert("debug"@.len() != "clipboard-execution"@.len()); }
    assert("debug"@ != "command"@) by { assert("debug"@.len() != "command"@.len()); }
    assert("teams_event"@ != "app_launcher"@) by { assert("teams_event"@.len() != "app_launcher"@.len()); }
    assert("teams_event"@ != "audio_sink"@) by { assert("teams_event"@.len() != "audio_sink"@.len()); }
    assert("teams_event"@ != "bookmarks"@) by { assert("teams_event"@.len() != "bookmarks"@.len()); }
    assert("teams_event"@ != "bulk_text"@) by { assert("teams_event"@.len() != "bulk_text"@.len()); }
    assert("teams_event"@ != "calculation"@) by { assert("teams_event"@[0] != "calculation"@[0]); }
    assert("teams_event"@ != "categories"@) by { assert("teams_event"@.len() != "categories"@.len()); }
    assert("teams_event"@ != "clipboard-execution"@) by { assert("teams_event"@.len() != "clipboard-execution"@.len()); }
    assert("teams_event"@ != "command"@) by { assert("teams_event"@.len() != "command"@.len()); }
    assert("teams_event"@ != "debug"@) by { assert("teams_event"@.len() != "debug"@.len()); }
    assert("process"@ != "app_launcher"@) by { assert("process"@.len() != "app_launcher"@.len()); }
    assert("process"@ != "audio_sink"@) by { assert("process"@.len() != "audio_sink"@.len()); }
    assert("process"@ != "bookmarks"@) by { assert("process"@.len() != "bookmarks"@.len()); }
    assert("process"@ != "bulk_text"@) by { assert("process"@.len() != "bulk_text"@.len()); }
    assert("process"@ != "calculation"@) by { assert("process"@.len() != "calculation"@.len()); }
    assert("process"@ != "categories"@) by { assert("process"@.len() != "categories"@.len()); }
    assert("process"@ != "clipboard-execution"@) by { assert("process"@.len() != "clipboard-execution"@.len()); }
    assert("process"@ != "command"@) by { assert("process"@[0] != "command"@[0]); }
    assert("process"@ != "debug"@) by { assert("process"@.len() != "debug"@.len()); }
    assert("process"@ != "teams_event"@) by { assert("process"@.len() != "teams_event"@.len()); }
    assert("weather"@ != "app_launcher"@) by { assert("weather"@.len() != "app_launcher"@.len()); }
    assert("weather"@ != "audio_sink"@) by { assert("weather"@.len() != "audio_sink"@.len()); }
    assert("weather"@ != "bookmarks"@) by { assert("weather"@.len() != "bookmarks"@.len()); }
    assert("weather"@ != "bulk_text"@) by { assert("weather"@.len() != "bulk_text"@.len()); }
    assert("weather"@ != "calculation"@) by { assert("weather"@.len() != "calculation"@.len()); }
    assert("weather"@ != "categories"@) by { assert("weather"@.len() != "categories"@.len()); }
    assert("weather"@ != "clipboard-execution"@) by { assert("weather"@.len() != "clipboard-execution"@.len()); }
    assert("weather"@ != "command"@) by { assert("weather"@[0] != "command"@[0]); }
    assert("weather"@ != "debug"@) by { assert("weather"@.len() != "debug"@.len()); }
    assert("weather"@ != "teams_event"@) by { assert("weather"@.len() != "teams_event"@.len()); }
    assert("weather"@ != "process"@) by { assert("weather"@[0] != "process"@[0]); }
    assert("web_launcher"@ != "app_launcher"@) by { assert("web_launcher"@[0] != "app_launcher"@[0]); }
    assert("web_launcher"@ != "audio_sink"@) by { assert("web_launcher"@.len() != "audio_sink"@.len()); }
    assert("web_launcher"@ != "bookmarks"@) by { assert("web_launcher"@.len() != "bookmarks"@.len()); }
    assert("web_launcher"@ != "bulk_text"@) by { assert("web_launcher"@.len() != "bulk_text"@.len()); }
    assert("web_launcher"@ != "calculation"@) by { assert("web_launcher"@.len() != "calculation"@.len()); }
    assert("web_launcher"@ != "categories"@) by { assert("web_launcher"@.len() != "categories"@.len()); }
    assert("web_launcher"@ != "clipboard-execution"@) by { assert("web_launcher"@.len() != "clipboard-execution"@.len()); }
    assert("web_launcher"@ != "command"@) by { assert("web_launcher"@.len() != "command"@.len()); }
    assert("web_launcher"@ != "debug"@) by { assert("web_launcher"@.len() != "debug"@.len()); }
    assert("web_launcher"@ != "teams_event"@) by { assert("web_launcher"@.len() != "teams_event"@.len()); }
    assert("web_launcher"@ != "process"@) by { assert("web_launcher"@.len() != "process"@.len()); }
    assert("web_launcher"@ != "weather"@) by { assert("web_launcher"@.len() != "weather"@.len()); }
}

pub fn launcher_kind(t: &str) -> (r: LauncherKind)
    ensures
        r == kind_of(t@),
{
    if str_eq(t, "app_launcher") {
        LauncherKind::App
    } else if str_eq(t, "audio_sink") {
        LauncherKind::AudioSink
    } else if str_eq(t, "bookmarks") {
        LauncherKind::Bookmarks
    } else if str_eq(t, "bulk_text") {
        LauncherKind::BulkText
    } else if str_eq(t, "calculation") {
        LauncherKind::Calculation
    } else if str_eq(t, "categories") {
        LauncherKind::Categories
    } else if str_eq(t, "clipboard-execution") {
        LauncherKind::Clipboard
    } else if str_eq(t, "command") {
        LauncherKind::Command
    } else if str_eq(t, "debug") {
        LauncherKind::Debug
    } else if str_eq(t, "teams_event") {
        LauncherKind::TeamsEvent
    } else if str_eq(t, "process") {
        LauncherKind::Process
    } else if str_eq(t, "weather") {
        LauncherKind::Weather
    } else if str_eq(t, "web_launcher") {
        LauncherKind::Web
    } else {
        LauncherKind::Empty
    }
}

/// What choosing a launcher's row does: its `on_return` setting, else its
/// type.
pub fn launcher_method(raw: &RawLauncher) -> (r: String)
    ensures
        r@ == match raw.on_return {
            Some(m) => m@,
            None => raw.kind@,
        },
{
    match &raw.on_return {
        Some(m) => m.clone(),
        None => raw.kind.clone(),
    }
}

/// The launcher a configuration describes, with what its kind needs
/// already read.
pub struct Launcher {
    pub name: Option<String>,
    pub icon: Option<String>,
    pub alias: Option<String>,
    pub tag_start: Option<String>,
    pub tag_end: Option<String>,
    pub method: String,
    pub exit: bool,
    pub next_content: Option<String>,
    pub priority: u32,
    pub is_async: bool,
    pub home: bool,
    pub launcher_type: LauncherType,
    pub shortcut: bool,
    pub spawn_focus: bool,
    pub only_home: bool,
    pub actions: Option<Vec<ApplicationAction>>,
    pub add_actions: Option<Vec<ApplicationAction>>,
}

/// What a launcher holds, as far as the launcher list reads it: the
/// commands of the entries it lists, or a web search's engine.
pub enum LauncherType {
    App { execs: Vec<Option<String>> },
    Web { engine: String },
    Command { execs: Vec<Option<String>> },
    Category { execs: Vec<Option<String>> },
    Other(LauncherKind),
}

impl Launcher {
    /// A launcher from its configuration, the method its rows use, what
    /// its kind holds and its icon.
    pub fn from_raw(raw: RawLauncher, method: String, launcher_type: LauncherType, icon: Option<String>) -> (r:
        Self)
        ensures
            r.name == raw.name,
            r.icon == icon,
            r.alias == raw.alias,
            r.tag_start == raw.tag_start,
            r.tag_end == raw.tag_end,
            r.method == method,
            r.exit == raw.exit,
            r.next_content == raw.next_content,
            r.priority == raw.priority,
            r.is_async == raw.is_async,
            r.home == raw.home,
            r.only_home == raw.only_home,
            r.launcher_type == launcher_type,
            r.shortcut == raw.shortcut,
            r.spawn_focus == raw.spawn_focus,
            r.actions == raw.actions,
            r.add_actions == raw.add_actions,
    {
        Launcher {
            name: raw.name,
            icon,
            alias: raw.alias,
            tag_start: raw.tag_start,
            tag_end: raw.tag_end,
            method,
            exit: raw.exit,
            next_content: raw.next_content,
            priority: raw.priority,
            is_async: raw.is_async,
            home: raw.home,
            only_home: raw.only_home,
            launcher_type,
            shortcut: raw.shortcut,
            spawn_focus: raw.spawn_focus,
            actions: raw.actions,
            add_actions: raw.add_actions,
        }
    }

    /// The commands a launcher can start, as counted for usage: those of its
    /// entries, each once, or `websearch-<engine>` for a web search; none for the other
    /// kinds.
    pub fn get_execs(&self) -> (r: Option<Vec<String>>)
        ensures
            match self.launcher_type {
                LauncherType::App { execs } | LauncherType::Command { execs }
                | LauncherType::Category { execs } => r matches Some(v) && string_views(v@)
                    == first_occurrences(exec_views(execs@)) && string_views(v@).no_duplicates(),
                LauncherType::Web { engine } => r matches Some(v) && v@.len() == 1 && v@[0]@
                    == "websearch-"@ + engine@,
                LauncherType::Other(_) => r is None,
            },
    {
        match &self.launcher_type {
            LauncherType::App { execs } => Some(dedup_strings(&present_execs(execs))),
            LauncherType::Command { execs } => Some(dedup_strings(&present_execs(execs))),
            LauncherType::Category { execs } => Some(dedup_strings(&present_execs(execs))),
            LauncherType::Web { engine } => {
                let mut s = String::from_str("websearch-");
                s.append(engine.as_str());
                let mut v: Vec<String> = Vec::new();
                v.push(s);
                Some(v)
            },
            LauncherType::Other(_) => None,
        }
    }
}

/// An entry of a command or category launcher's configuration, as it is
/// read: the map key it stands under becomes its name.
pub struct ConfigEntry {
    pub name: String,
    pub icon: Option<String>,
    pub icon_class: Option<String>,
    pub command: Option<String>,
    pub search_string: String,
    pub tag_start: Option<String>,
    pub tag_end: Option<String>,
}

/// The entries of a configuration map, in the order they were read, each
/// named by its key.
pub fn deserialize_named_appdata(map: Vec<(String, ConfigEntry)>) -> (r: Vec<ConfigEntry>)
    ensures
        r@.len() == map@.len(),
        forall|k: int|
            0 <= k < r@.len() ==> {
                &&& (#[trigger] r@[k]).name@ == map@[k].0@
                &&& r@[k].icon == map@[k].1.icon
                &&& r@[k].icon_class == map@[k].1.icon_class
                &&& r@[k].command == map@[k].1.command
                &&& r@[k].search_string == map@[k].1.search_string
                &&& r@[k].tag_start == map@[k].1.tag_start
                &&& r@[k].tag_end == map@[k].1.tag_end
            },
{
    let ghost m = map@;
    let mut map = map;
    let mut out: Vec<ConfigEntry> = Vec::new();
    let n = map.len();
    let mut i: usize = 0;
    while i < n
        invariant
            n == m.len(),
            i <= n,
            map@ == m.skip(i as int),
            out@.len() == i,
            forall|k: int|
                0 <= k < i ==> {
                    &&& (#[trigger] out@[k]).name@ == m[k].0@
                    &&& out@[k].icon == m[k].1.icon
                    &&& out@[k].icon_class == m[k].1.icon_class
                    &&& out@[k].command == m[k].1.command
                    &&& out@[k].search_string == m[k].1.search_string
                    &&& out@[k].tag_start == m[k].1.tag_start
                    &&& out@[k].tag_end == m[k].1.tag_end
                },
        decreases n - i,
    {
        let (key, e) = map.remove(0);
        assert((key, e) == m[i as int]);
        out.push(
            ConfigEntry {
                name: key,
                icon: e.icon,
                icon_class: e.icon_class,
                command: e.command,
                search_string: e.search_string,
                tag_start: e.tag_start,
                tag_end: e.tag_end,
            },
        );
        assert(map@ =~= m.skip(i + 1));
        i = i + 1;
    }
    out
}

/// The commands of the entries that have one, in order.
pub open spec fn exec_views(execs: Seq<Option<String>>) -> Seq<Seq<char>>
    decreases execs.len(),
{
    if execs.len() == 0 {
        Seq::empty()
    } else {
        let rest = exec_views(execs.drop_last());
        match execs.last() {
            Some(e) => rest.push(e@),
            None => rest,
        }
    }
}

pub open spec fn string_views(v: Seq<String>) -> Seq<Seq<char>> {
    v.map_values(|s: String| s@)
}

fn present_execs(execs: &Vec<Option<String>>) -> (r: Vec<String>)
    ensures
        string_views(r@) == exec_views(execs@),
{
    let mut out: Vec<String> = Vec::new();
    let mut k: usize = 0;
    while k < execs.len()
        invariant
            k <= execs@.len(),
            string_views(out@) == exec_views(execs@.take(k as int)),
        decreases execs@.len() - k,
    {
        proof {
            assert(execs@.take(k + 1).drop_last() =~= execs@.take(k as int));
        }
        let ghost before = out@;
        match &execs[k] {
            Some(e) => {
                out.push(e.clone());
                assert(string_views(out@) =~= string_views(before).push(e@));
            },
            None => {},
        }
        k = k + 1;
    }
    assert(execs@.take(execs@.len() as int) =~= execs@);
    out
}

/// A bulk-text launcher's script, its arguments and icon, each empty where
/// not given.
pub fn parse_bulk_text_launcher(raw: &RawLauncher) -> (r: BulkTextLauncher)
    ensures
        r.icon@ == str_or(arg_str(raw.args, "icon"@), ""@),
        r.executable@ == str_or(arg_str(raw.args, "exec"@), ""@),
        r.args@ == str_or(arg_str(raw.args, "exec-args"@), ""@),
{
    BulkTextLauncher {
        icon: raw.args.str_or("icon", ""),
        executable: raw.args.str_or("exec", ""),
        args: raw.args.str_or("exec-args", ""),
    }
}

/// The strings of a list, in order.
pub open spec fn string_items(items: Seq<ArgValue>) -> Seq<Seq<char>>
    decreases items.len(),
{
    if items.len() == 0 {
        Seq::empty()
    } else {
        let rest = string_items(items.drop_last());
        match items.last() {
            ArgValue::Str(s) => rest.push(s@),
            _ => rest,
        }
    }
}

/// A calculator's or clipboard's capabilities: the strings of the
/// `capabilities` list, where that is a list.
pub open spec fn capabilities_of(args: ArgValue) -> Option<Seq<Seq<char>>> {
    match arg_get(args, "capabilities"@) {
        Some(ArgValue::Array(items)) => Some(string_items(items@)),
        _ => None,
    }
}

pub fn parse_capabilities(args: &ArgValue) -> (r: Option<Vec<String>>)
    ensures
        match r {
            Some(v) => capabilities_of(*args) == Some(v@.map_values(|s: String| s@)),
            None => capabilities_of(*args) is None,
        },
{
    match args.get("capabilities") {
        Some(ArgValue::Array(items)) => {
            let mut out: Vec<String> = Vec::new();
            let mut i: usize = 0;
            while i < items.len()
                invariant
                    i <= items@.len(),
                    out@.map_values(|s: String| s@) == string_items(items@.take(i as int)),
                decreases items@.len() - i,
            {
                proof {
                    assert(items@.take(i + 1).drop_last() =~= items@.take(i as int));
                }
                let ghost before = out@;
                match &items[i] {
                    ArgValue::Str(s) => {
                        out.push(s.clone());
                        assert(out@.map_values(|s: String| s@) =~= before.map_values(
                            |s: String| s@,
                        ).push(s@));
                    },
                    _ => {},
                }
                i = i + 1;
            }
            assert(items@.take(items@.len() as int) =~= items@);
            Some(out)
        },
        _ => None,
    }
}

/// The settings of a Teams event launcher: icon, day, and the window the
/// meeting must start in, with their defaults.
pub fn parse_event_launcher(raw: &RawLauncher) -> (r: (String, String, String, String))
    ensures
        r.0@ == str_or(arg_str(raw.args, "icon"@), "teams"@),
        r.1@ == str_or(arg_str(raw.args, "event_date"@), "now"@),
        r.2@ == str_or(arg_str(raw.args, "event_start"@), "-5 minutes"@),
        r.3@ == str_or(arg_str(raw.args, "event_end"@), "+15 minutes"@),
{
    (
        raw.args.str_or("icon", "teams"),
        raw.args.str_or("event_date", "now"),
        raw.args.str_or("event_start", "-5 minutes"),
        raw.args.str_or("event_end", "+15 minutes"),
    )
}

/// The icon of a process launcher.
pub fn parse_process_launcher(raw: &RawLauncher) -> (r: String)
    ensures
        r@ == str_or(arg_str(raw.args, "icon"@), "sherlock-process"@),
{
    raw.args.str_or("icon", "sherlock-process")
}

/// A weather launcher's place and how often it is refreshed, in minutes;
/// none without a place.
pub fn parse_weather_launcher(raw: &RawLauncher) -> (r: Option<(String, u64)>)
    ensures
        match r {
            Some((loc, every)) => arg_str(raw.args, "location"@) == Some(loc@) && every == match arg_get(
                raw.args,
                "update_interval"@,
            ) {
                Some(ArgValue::Number(Some(n))) => n,
                _ => 60,
            },
            None => arg_str(raw.args, "location"@) is None,
        },
{
    match raw.args.get_str("location") {
        Some(loc) => {
            let every = match raw.args.get("update_interval") {
                Some(ArgValue::Number(Some(n))) => *n,
                _ => 60,
            };
            Some((loc, every))
        },
        None => None,
    }
}

/// A web launcher's title, icon and search engine, each empty where not
/// given.
pub fn parse_web_launcher(raw: &RawLauncher) -> (r: (String, String, String))
    ensures
        r.0@ == match raw.display_name {
            Some(d) => d@,
            None => ""@,
        },
        r.1@ == str_or(arg_str(raw.args, "icon"@), ""@),
        r.2@ == str_or(arg_str(raw.args, "search_engine"@), ""@),
{
    let d = match &raw.display_name {
        Some(d) => d.clone(),
        None => String::from_str(""),
    };
    (d, raw.args.str_or("icon", ""), raw.args.str_or("search_engine", ""))
}

/// How reading the user's launcher file failed.
pub enum FallbackFailure {
    NotFound,
    ReadFailed(String),
    ParseFailed(String),
}

/// The error reported, without stopping, where the user's launcher file
/// cannot be used; the built-in launchers are used instead.
pub fn fallback_error(path: &str, failure: FallbackFailure) -> (r: SherlockError)
    ensures
        match failure {
            FallbackFailure::NotFound => (r.error matches SherlockErrorType::FileExistError(p)
                && p@ == path@) && r.traceback@ == "The file \""@ + path@
                + "\" does not exist in the specified location."@,
            FallbackFailure::ReadFailed(m) => (r.error matches SherlockErrorType::FileReadError(p)
                && p@ == path@) && r.traceback@ == m@,
            FallbackFailure::ParseFailed(m) => (r.error matches SherlockErrorType::FileParseError(
                p,
            ) && p@ == path@) && r.traceback@ == m@,
        },
{
    match failure {
        FallbackFailure::NotFound => {
            let mut t = String::from_str("The file \"");
            t.append(path);
            t.append("\" does not exist in the specified location.");
            SherlockError {
                error: SherlockErrorType::FileExistError(String::from_str(path)),
                traceback: t,
            }
        },
        FallbackFailure::ReadFailed(m) => SherlockError {
            error: SherlockErrorType::FileReadError(String::from_str(path)),
            traceback: m,
        },
        FallbackFailure::ParseFailed(m) => SherlockError {
            error: SherlockErrorType::FileParseError(String::from_str(path)),
            traceback: m,
        },
    }
}

pub open spec fn opt_chars(o: Option<String>) -> Option<Seq<char>> {
    match o {
        Some(s) => Some(s@),
        None => None,
    }
}

/// Whether `l` is the launcher that the configuration `raw` gives once its
/// kind read `t`: its rows' method is the `on_return` setting or else the
/// type, its icon the `icon` argument, the rest as configured.
pub open spec fn built_from(l: Launcher, raw: RawLauncher, t: LauncherType) -> bool {
    &&& l.name == raw.name
    &&& opt_chars(l.icon) == arg_str(raw.args, "icon"@)
    &&& l.alias == raw.alias
    &&& l.tag_start == raw.tag_start
    &&& l.tag_end == raw.tag_end
    &&& l.method@ == match raw.on_return {
        Some(m) => m@,
        None => raw.kind@,
    }
    &&& l.exit == raw.exit
    &&& l.next_content == raw.next_content
    &&& l.priority == raw.priority
    &&& l.is_async == raw.is_async
    &&& l.home == raw.home
    &&& l.only_home == raw.only_home
    &&& l.launcher_type == t
    &&& l.shortcut == raw.shortcut
    &&& l.spawn_focus == raw.spawn_focus
    &&& l.actions == raw.actions
    &&& l.add_actions == raw.add_actions
}

/// The positions whose kind could be read, in order.
pub open spec fn read_positions(parsed: Seq<Result<LauncherType, SherlockError>>) -> Seq<int>
    decreases parsed.len(),
{
    if parsed.len() == 0 {
        Seq::empty()
    } else {
        let rest = read_positions(parsed.drop_last());
        if parsed.last() is Ok {
            rest.push(parsed.len() - 1)
        } else {
            rest
        }
    }
}

/// The errors of the kinds that could not be read, in order.
pub open spec fn read_errors(parsed: Seq<Result<LauncherType, SherlockError>>) -> Seq<SherlockError>
    decreases parsed.len(),
{
    if parsed.len() == 0 {
        Seq::empty()
    } else {
        let rest = read_errors(parsed.drop_last());
        match parsed.last() {
            Ok(_) => rest,
            Err(e) => rest.push(e),
        }
    }
}

proof fn lemma_read_positions_below(parsed: Seq<Result<LauncherType, SherlockError>>)
    ensures
        forall|k: int|
            0 <= k < read_positions(parsed).len() ==> 0 <= #[trigger] read_positions(parsed)[k] < parsed.len()
                && parsed[read_positions(parsed)[k]] is Ok,
    decreases parsed.len(),
{
    if parsed.len() > 0 {
        lemma_read_positions_below(parsed.drop_last());
    }
}

/// The launchers of the configurations, one for each whose kind could be
/// read (`parsed` holds, per configuration, what its kind read or why that
/// failed), in the configured order; and the errors of the others, in
/// order, which do not stop the loading.
pub fn assemble_launchers(raws: Vec<RawLauncher>, parsed: Vec<Result<LauncherType, SherlockError>>) -> (r: (
    Vec<Launcher>,
    Vec<SherlockError>,
))
    requires
        raws@.len() == parsed@.len(),
    ensures
        r.0@.len() == read_positions(parsed@).len(),
        forall|k: int|
            0 <= k < r.0@.len() ==> built_from(
                #[trigger] r.0@[k],
                raws@[read_positions(parsed@)[k]],
                parsed@[read_positions(parsed@)[k]]->Ok_0,
            ),
        r.1@ == read_errors(parsed@),
{
    let ghost rs = raws@;
    let ghost ps = parsed@;
    let mut raws = raws;
    let mut parsed = parsed;
    let mut launchers: Vec<Launcher> = Vec::new();
    let mut errors: Vec<SherlockError> = Vec::new();
    let mut i: usize = 0;
    let n = raws.len();
    assert(ps.take(0) =~= Seq::<Result<LauncherType, SherlockError>>::empty());
    while i < n
        invariant
            n == rs.len(),
            rs.len() == ps.len(),
            i <= n,
            raws@ == rs.skip(i as int),
            parsed@ == ps.skip(i as int),
            launchers@.len() == read_positions(ps.take(i as int)).len(),
            forall|k: int|
                0 <= k < launchers@.len() ==> built_from(
                    #[trigger] launchers@[k],
                    rs[read_positions(ps.take(i as int))[k]],
                    ps[read_positions(ps.take(i as int))[k]]->Ok_0,
                ),
            errors@ == read_errors(ps.take(i as int)),
        decreases n - i,
    {
        let raw = raws.remove(0);
        let res = parsed.remove(0);
        assert(raw == rs[i as int]);
        assert(res == ps[i as int]);
        let ghost prev = ps.take(i as int);
        let ghost next = ps.take(i + 1);
        assert(next.drop_last() =~= prev);
        assert(next.last() == ps[i as int]);
        proof {
            lemma_read_positions_below(prev);
            assert forall|k: int| 0 <= k < read_positions(prev).len() implies ps[#[trigger] read_positions(
                prev,
            )[k]] == prev[read_positions(prev)[k]] by {}
        }
        match res {
            Ok(t) => {
                let method = launcher_method(&raw);
                let icon = raw.args.get_str("icon");
                let ghost before = launchers@;
                let l = Launcher::from_raw(raw, method, t, icon);
                launchers.push(l);
                assert(read_positions(next) == read_positions(prev).push(i as int));
                assert forall|k: int| 0 <= k < launchers@.len() implies built_from(
                    #[trigger] launchers@[k],
                    rs[read_positions(next)[k]],
                    ps[read_positions(next)[k]]->Ok_0,
                ) by {
                    if k < before.len() {
                        assert(launchers@[k] == before[k]);
                        assert(read_positions(next)[k] == read_positions(prev)[k]);
                    }
                }
            },
            Err(e) => {
                errors.push(e);
                assert(read_positions(next) == read_positions(prev));
            },
        }
        assert(raws@ =~= rs.skip(i + 1));
        assert(parsed@ =~= ps.skip(i + 1));
        i = i + 1;
    }
    assert(ps.take(n as int) =~= ps);
    (launchers, errors)
}

/// The commands a launcher lists, as `get_execs` gives them; none for the
/// kinds that list no commands.
pub open spec fn launcher_execs(l: Launcher) -> Seq<Seq<char>> {
    match l.launcher_type {
        LauncherType::App { execs } | LauncherType::Command { execs } | LauncherType::Category {
            execs,
        } => first_occurrences(exec_views(execs@)),
        LauncherType::Web { engine } => seq!["websearch-"@ + engine@],
        LauncherType::Other(_) => Seq::empty(),
    }
}

/// The commands of all launchers, launcher after launcher.
pub open spec fn all_execs(ls: Seq<Launcher>) -> Seq<Seq<char>>
    decreases ls.len(),
{
    if ls.len() == 0 {
        Seq::empty()
    } else {
        all_execs(ls.drop_last()) + launcher_execs(ls.last())
    }
}

/// Where no launch was counted yet, the counts to write: zero for every
/// command of the launchers; `None` where counts exist.
pub fn seed_counts(counts: &CountMap, launchers: &Vec<Launcher>) -> (r: Option<CountMap>)
    ensures
        r is None <==> counts.entries@.len() > 0,
        r matches Some(z) ==> {
            &&& z.wf()
            &&& forall|k: Seq<char>| #[trigger] z@.contains_key(k) <==> all_execs(launchers@).contains(k)
            &&& forall|k: Seq<char>| #[trigger] z@.contains_key(k) ==> z@[k] == 0
        },
{
    if counts.entries.len() > 0 {
        return None;
    }
    let mut keys: Vec<String> = Vec::new();
    let mut i: usize = 0;
    assert(launchers@.take(0) =~= Seq::<Launcher>::empty());
    while i < launchers.len()
        invariant
            i <= launchers@.len(),
            string_views(keys@) == all_execs(launchers@.take(i as int)),
        decreases launchers@.len() - i,
    {
        assert(launchers@.take(i + 1).drop_last() =~= launchers@.take(i as int));
        assert(launchers@.take(i + 1).last() == launchers@[i as int]);
        let ghost before = keys@;
        match launchers[i].get_execs() {
            Some(v) => {
                let mut k: usize = 0;
                while k < v.len()
                    invariant
                        k <= v@.len(),
                        string_views(keys@) == string_views(before) + string_views(v@).take(k as int),
                    decreases v@.len() - k,
                {
                    let c = v[k].clone();
                    let ghost prev_keys = keys@;
                    keys.push(c);
                    assert(string_views(v@)[k as int] == v@[k as int]@);
                    assert(string_views(keys@) =~= string_views(prev_keys).push(c@));
                    assert(string_views(v@).take(k + 1) =~= string_views(v@).take(k as int).push(
                        v@[k as int]@,
                    ));
                    assert(string_views(keys@) =~= string_views(before) + string_views(v@).take(k + 1));
                    k = k + 1;
                }
                assert(string_views(v@).take(v@.len() as int) =~= string_views(v@));
                assert(string_views(v@) == launcher_execs(launchers@[i as int]));
            },
            None => {
                assert(launcher_execs(launchers@[i as int]) =~= Seq::<Seq<char>>::empty());
                assert(string_views(keys@) =~= string_views(before) + Seq::<Seq<char>>::empty());
            },
        }
        i = i + 1;
    }
    assert(launchers@.take(launchers@.len() as int) =~= launchers@);
    let z = CountMap::zeros(&keys);
    assert forall|k: Seq<char>| #[trigger] z@.contains_key(k) <==> all_execs(launchers@).contains(k) by {
        if z@.contains_key(k) {
            let j = choose|j: int| 0 <= j < keys@.len() && keys@[j]@ == k;
            assert(string_views(keys@)[j] == k);
        }
        if all_execs(launchers@).contains(k) {
            let j = choose|j: int| 0 <= j < all_execs(launchers@).len() && all_execs(launchers@)[j] == k;
            assert(keys@[j]@ == string_views(keys@)[j]);
        }
    }
    Some(z)
}


/// Launcher `a` comes before launcher `b`: a lower priority first, and in
/// the configured order where priorities are equal.
pub open spec fn comes_before(p: Seq<u32>, a: int, b: int) -> bool {
    p[a] < p[b] || (p[a] == p[b] && a < b)
}

/// The order launchers are shown in, as positions in the configured list:
/// by priority, keeping the configured order among equal priorities.
pub fn launcher_order(priorities: &Vec<u32>) -> (r: Vec<usize>)
    ensures
        r@.len() == priorities@.len(),
        forall|i: int| 0 <= i < r@.len() ==> r@[i] < priorities@.len(),
        forall|i: int, j: int|
            0 <= i < j < r@.len() ==> comes_before(priorities@, r@[i] as int, r@[j] as int),
{
    let n = priorities.len();
    let mut r: Vec<usize> = Vec::new();
    let mut k: usize = 0;
    while k < n
        invariant
            n == priorities@.len(),
            k <= n,
            r@.len() == k,
            forall|i: int| 0 <= i < r@.len() ==> r@[i] < k,
            forall|i: int, j: int|
                0 <= i < j < r@.len() ==> comes_before(priorities@, r@[i] as int, r@[j] as int),
        decreases n - k,
    {
        let pk = priorities[k];
        let mut pos: usize = 0;
        while pos < r.len() && priorities[r[pos]] <= pk
            invariant
                n == priorities@.len(),
                k < n,
                pk == priorities@[k as int],
                pos <= r@.len(),
                forall|i: int| 0 <= i < r@.len() ==> r@[i] < k,
                forall|i: int| 0 <= i < pos ==> priorities@[r@[i] as int] <= pk,
            decreases r@.len() - pos,
        {
            pos = pos + 1;
        }
        let ghost old_r = r@;
        proof {
            assert forall|i: int| pos <= i < old_r.len() implies pk < priorities@[old_r[i] as int] by {
                if i > pos {
                    assert(comes_before(priorities@, old_r[pos as int] as int, old_r[i] as int));
                }
            }
        }
        r.insert(pos, k);
        proof {
            assert forall|i: int, j: int|
                0 <= i < j < r@.len() implies comes_before(priorities@, r@[i] as int, r@[j] as int) by {
                if j < pos {
                    assert(r@[i] == old_r[i] && r@[j] == old_r[j]);
                } else if j == pos {
                    assert(r@[i] == old_r[i]);
                } else if i < pos {
                    assert(r@[i] == old_r[i] && r@[j] == old_r[j - 1]);
                } else if i == pos {
                    assert(r@[j] == old_r[j - 1]);
                } else {
                    assert(r@[i] == old_r[i - 1] && r@[j] == old_r[j - 1]);
                }
            }
        }
        k = k + 1;
    }
    r
}

/// Ordering the launchers shows each configured launcher exactly once:
/// every position of the configured list occurs in the order.
pub proof fn lemma_order_shows_every_launcher(p: Seq<u32>, order: Seq<usize>, k: int)
    requires
        order.len() == p.len(),
        forall|i: int| 0 <= i < order.len() ==> order[i] < p.len(),
        forall|i: int, j: int| 0 <= i < j < order.len() ==> comes_before(p, order[i] as int, order[j] as int),
        0 <= k < p.len(),
    ensures
        exists|i: int| 0 <= i < order.len() && order[i] == k,
{
    let o = order.map_values(|x: usize| x as int);
    assert forall|i: int, j: int| 0 <= i < o.len() && 0 <= j < o.len() && i != j implies o[i] != o[j] by {
        if i < j {
            assert(comes_before(p, order[i] as int, order[j] as int));
        } else {
            assert(comes_before(p, order[j] as int, order[i] as int));
        }
    }
    assert(o.no_duplicates());
    o.unique_seq_to_set();
    let range = vstd::set_lib::set_int_range(0, p.len() as int);
    vstd::set_lib::lemma_int_range(0, p.len() as int);
    assert(o.to_set().subset_of(range)) by {
        assert forall|x: int| o.to_set().contains(x) implies range.contains(x) by {
            let i = choose|i: int| 0 <= i < o.len() && o[i] == x;
        }
    }
    vstd::seq_lib::seq_to_set_is_finite(o);
    vstd::set_lib::lemma_subset_equality(o.to_set(), range);
    assert(range.contains(k));
    assert(o.to_set().contains(k));
    let i = choose|i: int| 0 <= i < o.len() && o[i] == k;
    assert(order[i] == k);
}

} // verus!
