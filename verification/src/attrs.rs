//! The attributes a result row carries, and the decision of what activating
//! a row does.
use vstd::prelude::*;
use crate::num::{parse_i32, parse_i32_spec};
use crate::text::{str_eq, trim, trim_str};

verus! {

/// Key/value pairs in insertion order; a later pair for a key hides earlier ones.
pub struct AttrMap {
    pub entries: Vec<(String, String)>,
}

/// The map that inserting `s` in order produces.
pub open spec fn entries_map(s: Seq<(String, String)>) -> Map<Seq<char>, Seq<char>>
    decreases s.len(),
{
    if s.len() == 0 {
        Map::empty()
    } else {
        entries_map(s.drop_last()).insert(s.last().0@, s.last().1@)
    }
}

impl View for AttrMap {
    type V = Map<Seq<char>, Seq<char>>;

    open spec fn view(&self) -> Map<Seq<char>, Seq<char>> {
        entries_map(self.entries@)
    }
}

/// The value stored for `k`, if any.
pub open spec fn lookup(m: Map<Seq<char>, Seq<char>>, k: Seq<char>) -> Option<Seq<char>> {
    if m.contains_key(k) {
        Some(m[k])
    } else {
        None
    }
}

/// The map built from the pairs whose value is present, later pairs winning.
pub open spec fn attrs_of(s: Seq<(&str, Option<&str>)>) -> Map<Seq<char>, Seq<char>>
    decreases s.len(),
{
    if s.len() == 0 {
        Map::empty()
    } else {
        let m = attrs_of(s.drop_last());
        match s.last().1 {
            Some(v) => m.insert(s.last().0@, v@),
            None => m,
        }
    }
}

proof fn lemma_entries_map_tail(s: Seq<(String, String)>, i: int, k: Seq<char>)
    requires
        0 <= i <= s.len(),
        forall|j: int| i <= j < s.len() ==> (#[trigger] s[j]).0@ != k,
    ensures
        lookup(entries_map(s), k) == lookup(entries_map(s.take(i)), k),
    decreases s.len() - i,
{
    if i == s.len() {
        assert(s.take(i) =~= s);
    } else {
        lemma_entries_map_tail(s, i + 1, k);
        assert(s.take(i + 1).drop_last() =~= s.take(i));
        assert(s.take(i + 1).last() == s[i]);
    }
}

impl AttrMap {
    pub fn new() -> (r: AttrMap)
        ensures
            r@ == Map::<Seq<char>, Seq<char>>::empty(),
    {
        AttrMap { entries: Vec::new() }
    }

    /// Sets `key` to `value`.
    pub fn insert(&mut self, key: String, value: String)
        ensures
            final(self)@ == old(self)@.insert(key@, value@),
    {
        let ghost old_entries = self.entries@;
        self.entries.push((key, value));
        assert(self.entries@.drop_last() =~= old_entries);
    }

    /// The value stored for `key`.
    pub fn get(&self, key: &str) -> (r: Option<&String>)
        ensures
            match r {
                Some(v) => lookup(self@, key@) == Some(v@),
                None => lookup(self@, key@) is None,
            },
    {
        let mut i: usize = self.entries.len();
        while i > 0
            invariant
                i <= self.entries@.len(),
                forall|j: int| i <= j < self.entries@.len() ==> (#[trigger] self.entries@[j]).0@
                    != key@,
            decreases i,
        {
            if str_eq(self.entries[i - 1].0.as_str(), key) {
                proof {
                    lemma_entries_map_tail(self.entries@, i as int, key@);
                    let t = self.entries@.take(i as int);
                    assert(t.last() == self.entries@[i - 1]);
                }
                return Some(&self.entries[i - 1].1);
            }
            i = i - 1;
        }
        proof {
            lemma_entries_map_tail(self.entries@, 0, key@);
            assert(self.entries@.take(0) =~= Seq::<(String, String)>::empty());
        }
        None
    }
}

/// The attributes present among `in_attrs`: each key whose value is given.
pub fn get_attrs_map(in_attrs: Vec<(&str, Option<&str>)>) -> (r: AttrMap)
    ensures
        r@ == attrs_of(in_attrs@),
{
    let mut r = AttrMap::new();
    let mut i: usize = 0;
    while i < in_attrs.len()
        invariant
            i <= in_attrs@.len(),
            r@ == attrs_of(in_attrs@.take(i as int)),
        decreases in_attrs@.len() - i,
    {
        let (k, v) = in_attrs[i];
        proof {
            assert(in_attrs@.take(i + 1).drop_last() =~= in_attrs@.take(i as int));
            assert(in_attrs@.take(i + 1).last() == in_attrs@[i as int]);
        }
        match v {
            Some(v) => {
                r.insert(String::from_str(k), String::from_str(v));
            },
            None => {},
        }
        i = i + 1;
    }
    assert(in_attrs@.take(in_attrs@.len() as int) =~= in_attrs@);
    r
}

/// What activating a row sets off.
pub enum ExecAction {
    /// Switch the search to another mode, clearing the search text.
    SwitchMode(String),
    /// Start a desktop application.
    AppLaunch { cmd: String, terminal: bool },
    /// Open a web search.
    WebSearch { engine: String, query: String },
    /// Run a shell command.
    Command { cmd: String, keyword: String },
    /// Put text on the clipboard.
    Copy(String),
    /// Answer on the response channel.
    Print(String),
    /// Join a Teams meeting.
    TeamsLaunch(String),
    /// Open the emoji page.
    EmojiPicker,
    /// Make a theme the current one.
    SelectTheme(String),
    /// Show further content on a new page.
    NextPage(String),
    /// Toggle playback of a media player.
    PlayPause(String),
    /// Kill a process and its child.
    KillProcess { parent: i32, child: i32 },
    /// Show the error page.
    ShowErrors,
    /// Remove cached files.
    ClearCache,
    /// Reset the launch counters.
    ResetCounts,
    /// Empty the log file.
    ResetLog,
    /// Insert a test error.
    TestError,
    /// Nothing to do.
    Nothing,
}

/// The same actions over mathematical strings.
pub ghost enum ActionView {
    SwitchMode(Seq<char>),
    AppLaunch { cmd: Seq<char>, terminal: bool },
    WebSearch { engine: Seq<char>, query: Seq<char> },
    Command { cmd: Seq<char>, keyword: Seq<char> },
    Copy(Seq<char>),
    Print(Seq<char>),
    TeamsLaunch(Seq<char>),
    EmojiPicker,
    SelectTheme(Seq<char>),
    NextPage(Seq<char>),
    PlayPause(Seq<char>),
    KillProcess { parent: i32, child: i32 },
    ShowErrors,
    ClearCache,
    ResetCounts,
    ResetLog,
    TestError,
    Nothing,
}

impl View for ExecAction {
    type V = ActionView;

    open spec fn view(&self) -> ActionView {
        match self {
            ExecAction::SwitchMode(m) => ActionView::SwitchMode(m@),
            ExecAction::AppLaunch { cmd, terminal } => ActionView::AppLaunch {
                cmd: cmd@,
                terminal: *terminal,
            },
            ExecAction::WebSearch { engine, query } => ActionView::WebSearch {
                engine: engine@,
                query: query@,
            },
            ExecAction::Command { cmd, keyword } => ActionView::Command {
                cmd: cmd@,
                keyword: keyword@,
            },
            ExecAction::Copy(s) => ActionView::Copy(s@),
            ExecAction::Print(s) => ActionView::Print(s@),
            ExecAction::TeamsLaunch(s) => ActionView::TeamsLaunch(s@),
            ExecAction::EmojiPicker => ActionView::EmojiPicker,
            ExecAction::SelectTheme(s) => ActionView::SelectTheme(s@),
            ExecAction::NextPage(s) => ActionView::NextPage(s@),
            ExecAction::PlayPause(s) => ActionView::PlayPause(s@),
            ExecAction::KillProcess { parent, child } => ActionView::KillProcess {
                parent: *parent,
                child: *child,
            },
            ExecAction::ShowErrors => ActionView::ShowErrors,
            ExecAction::ClearCache => ActionView::ClearCache,
            ExecAction::ResetCounts => ActionView::ResetCounts,
            ExecAction::ResetLog => ActionView::ResetLog,
            ExecAction::TestError => ActionView::TestError,
            ExecAction::Nothing => ActionView::Nothing,
        }
    }
}

/// What activating a row does, before the outcome of the action is known.
pub struct ExecPlan {
    pub action: ExecAction,
    /// Whether the window closes afterwards if the action succeeds.
    pub exit: bool,
    /// Whether a failure of the action keeps the window open.
    pub failure_keeps_open: bool,
    /// Counter key bumped whatever the outcome.
    pub count_always: Option<String>,
    /// Counter key bumped only when the action succeeds.
    pub count_on_success: Option<String>,
}

pub ghost struct PlanView {
    pub action: ActionView,
    pub exit: bool,
    pub failure_keeps_open: bool,
    pub count_always: Option<Seq<char>>,
    pub count_on_success: Option<Seq<char>>,
}

pub open spec fn opt_view(o: Option<String>) -> Option<Seq<char>> {
    match o {
        Some(s) => Some(s@),
        None => None,
    }
}

impl View for ExecPlan {
    type V = PlanView;

    open spec fn view(&self) -> PlanView {
        PlanView {
            action: self.action@,
            exit: self.exit,
            failure_keeps_open: self.failure_keeps_open,
            count_always: opt_view(self.count_always),
            count_on_success: opt_view(self.count_on_success),
        }
    }
}

pub open spec fn plan_of(
    action: ActionView,
    exit: bool,
    keeps_open: bool,
    always: Option<Seq<char>>,
    on_success: Option<Seq<char>>,
) -> PlanView {
    PlanView {
        action,
        exit,
        failure_keeps_open: keeps_open,
        count_always: always,
        count_on_success: on_success,
    }
}

pub open spec fn or_empty(o: Option<Seq<char>>) -> Seq<char> {
    match o {
        Some(s) => s,
        None => Seq::empty(),
    }
}

/// The first of `a` and `b` that is present.
pub open spec fn either(a: Option<Seq<char>>, b: Option<Seq<char>>) -> Option<Seq<char>> {
    match a {
        Some(x) => Some(x),
        None => b,
    }
}

/// What activating a row with the attributes `m` does; `cfg_field` is the
/// configured default field for copying.
pub open spec fn plan_for(m: Map<Seq<char>, Seq<char>>, cfg_field: Option<Seq<char>>) -> Option<
    PlanView,
> {
    match lookup(m, "method"@) {
        None => None,
        Some(method) => {
            let exit0 = match lookup(m, "exit"@) {
                Some(e) => e == "true"@,
                None => true,
            };
            let exec_v = lookup(m, "exec"@);
            let result = lookup(m, "result"@);
            Some(
                if method == "categories"@ {
                    match exec_v {
                        Some(mode) => plan_of(ActionView::SwitchMode(mode), false, false, None, None),
                        None => plan_of(ActionView::Nothing, false, false, None, None),
                    }
                } else if method == "app_launcher"@ {
                    plan_of(
                        ActionView::AppLaunch {
                            cmd: or_empty(exec_v),
                            terminal: lookup(m, "term"@) == Some("true"@),
                        },
                        exit0,
                        false,
                        Some(or_empty(exec_v)),
                        None,
                    )
                } else if method == "web_launcher"@ || method == "bookmarks"@ {
                    let engine = match lookup(m, "engine"@) {
                        Some(e) => e,
                        None => "plain"@,
                    };
                    match exec_v {
                        Some(q) => plan_of(
                            ActionView::WebSearch { engine, query: q },
                            exit0,
                            true,
                            None,
                            None,
                        ),
                        None => match lookup(m, "keyword"@) {
                            Some(q) => plan_of(
                                ActionView::WebSearch { engine, query: q },
                                exit0,
                                true,
                                Some("websearch-"@ + engine),
                                None,
                            ),
                            None => plan_of(
                                ActionView::WebSearch { engine, query: Seq::empty() },
                                exit0,
                                true,
                                None,
                                None,
                            ),
                        },
                    }
                } else if method == "command"@ {
                    plan_of(
                        ActionView::Command {
                            cmd: or_empty(exec_v),
                            keyword: or_empty(lookup(m, "keyword"@)),
                        },
                        exit0,
                        true,
                        None,
                        Some(or_empty(exec_v)),
                    )
                } else if method == "copy"@ {
                    match either(lookup(m, "field"@), cfg_field) {
                        Some(f) => match lookup(m, f) {
                            Some(out) => plan_of(ActionView::Copy(out), exit0, false, None, None),
                            None => plan_of(ActionView::Nothing, exit0, false, None, None),
                        },
                        None => match either(result, exec_v) {
                            Some(out) => plan_of(ActionView::Copy(out), exit0, true, None, None),
                            None => plan_of(ActionView::Nothing, exit0, false, None, None),
                        },
                    }
                } else if method == "print"@ {
                    match lookup(m, "field"@) {
                        Some(f) => match lookup(m, f) {
                            Some(out) => plan_of(ActionView::Print(out), exit0, false, None, None),
                            None => plan_of(ActionView::Nothing, exit0, false, None, None),
                        },
                        None => match either(result, exec_v) {
                            Some(out) => plan_of(ActionView::Print(out), exit0, false, None, None),
                            None => plan_of(ActionView::Nothing, exit0, false, None, None),
                        },
                    }
                } else if method == "teams_event"@ {
                    match lookup(m, "meeting_url"@) {
                        Some(u) => plan_of(ActionView::TeamsLaunch(u), exit0, false, None, None),
                        None => plan_of(ActionView::Nothing, exit0, false, None, None),
                    }
                } else if method == "emoji_picker"@ {
                    plan_of(ActionView::EmojiPicker, false, false, None, None)
                } else if method == "theme_picker"@ {
                    match either(result, exec_v) {
                        Some(t) => plan_of(ActionView::SelectTheme(t), exit0, true, None, None),
                        None => plan_of(ActionView::Nothing, false, false, None, None),
                    }
                } else if method == "next"@ {
                    let content = match lookup(m, "next_content"@) {
                        Some(c) => trim(c),
                        None => "No next_content provided..."@,
                    };
                    plan_of(ActionView::NextPage(content), false, false, None, None)
                } else if method == "play-pause"@ || method == "audio_sink"@ {
                    match lookup(m, "player"@) {
                        Some(p) => plan_of(ActionView::PlayPause(p), exit0, true, None, None),
                        None => plan_of(ActionView::Nothing, exit0, false, None, None),
                    }
                } else if method == "kill-process"@ {
                    let parent = match lookup(m, "parent-pid"@) {
                        Some(p) => parse_i32_spec(p),
                        None => None,
                    };
                    let child = match lookup(m, "child-pid"@) {
                        Some(c) => parse_i32_spec(c),
                        None => None,
                    };
                    match (parent, child) {
                        (Some(p), Some(c)) => plan_of(
                            ActionView::KillProcess { parent: p, child: c },
                            exit0,
                            false,
                            None,
                            None,
                        ),
                        _ => plan_of(ActionView::Nothing, exit0, false, None, None),
                    }
                } else if method == "debug"@ {
                    let what = or_empty(exec_v);
                    if what == "show_errors"@ {
                        plan_of(
                            ActionView::ShowErrors,
                            false,
                            false,
                            None,
                            Some("debug.show_errors"@),
                        )
                    } else if what == "clear_cache"@ {
                        plan_of(
                            ActionView::ClearCache,
                            exit0,
                            false,
                            None,
                            Some("debug.clear_cache"@),
                        )
                    } else if what == "reset_counts"@ {
                        plan_of(
                            ActionView::ResetCounts,
                            exit0,
                            false,
                            None,
                            Some("debug.reset_counts"@),
                        )
                    } else if what == "reset_log"@ {
                        plan_of(ActionView::ResetLog, exit0, true, None, None)
                    } else if what == "test_error"@ {
                        plan_of(ActionView::TestError, false, false, None, None)
                    } else {
                        plan_of(ActionView::Nothing, exit0, false, None, None)
                    }
                } else if method == "clear_cache"@ {
                    plan_of(ActionView::ClearCache, exit0, false, None, None)
                } else {
                    match result {
                        Some(out) => plan_of(ActionView::Print(out), exit0, false, None, None),
                        None => plan_of(
                            ActionView::Print(
                                "Return method \""@ + method + "\" not recognized"@,
                            ),
                            exit0,
                            false,
                            None,
                            None,
                        ),
                    }
                },
            )
        },
    }
}

/// Whether the window closes once the action of `plan` has run: a forced
/// choice wins; otherwise a failure that keeps the window open does so.
pub open spec fn settle_spec(plan: PlanView, succeeded: bool, do_exit: Option<bool>) -> bool {
    match do_exit {
        Some(e) => e,
        None => if !succeeded && plan.failure_keeps_open {
            false
        } else {
            plan.exit
        },
    }
}

fn owned(s: &String) -> (r: String)
    ensures
        r@ == s@,
{
    s.clone()
}

fn lit(s: &str) -> (r: String)
    ensures
        r@ == s@,
{
    String::from_str(s)
}

fn plan(
    action: ExecAction,
    exit: bool,
    keeps_open: bool,
    always: Option<String>,
    on_success: Option<String>,
) -> (r: ExecPlan)
    ensures
        r@ == plan_of(action@, exit, keeps_open, opt_view(always), opt_view(on_success)),
{
    ExecPlan {
        action,
        exit,
        failure_keeps_open: keeps_open,
        count_always: always,
        count_on_success: on_success,
    }
}

/// The first of two optional values that is present.
fn first_of<'a>(a: Option<&'a String>, b: Option<&'a String>) -> (r: Option<&'a String>)
    ensures
        r == match a {
            Some(x) => Some(x),
            None => b,
        },
{
    match a {
        Some(x) => Some(x),
        None => b,
    }
}

/// What activating a row with the attributes `attrs` does. `config_field` is
/// the configured default field that the copy method falls back on. Rows
/// without a method do nothing (`None`).
pub fn plan_execution(attrs: &AttrMap, config_field: Option<&str>) -> (r: Option<ExecPlan>)
    ensures
        match r {
            Some(p) => plan_for(
                attrs@,
                match config_field {
                    Some(f) => Some(f@),
                    None => None,
                },
            ) == Some(p@),
            None => plan_for(
                attrs@,
                match config_field {
                    Some(f) => Some(f@),
                    None => None,
                },
            ) is None,
        },
{
    let ghost m = attrs@;
    let ghost cfg = match config_field {
        Some(f) => Some(f@),
        None => None::<Seq<char>>,
    };
    let method = match attrs.get("method") {
        Some(m) => m,
        None => return None,
    };
    let exit0 = match attrs.get("exit") {
        Some(e) => str_eq(e.as_str(), "true"),
        None => true,
    };
    let exec_attr = attrs.get("exec");
    let result = attrs.get("result");
    let ms = method.as_str();
    let p = if str_eq(ms, "categories") {
        match exec_attr {
            Some(mode) => plan(ExecAction::SwitchMode(owned(mode)), false, false, None, None),
            None => plan(ExecAction::Nothing, false, false, None, None),
        }
    } else if str_eq(ms, "app_launcher") {
        let e = match exec_attr {
            Some(e) => owned(e),
            None => String::new(),
        };
        let term = match attrs.get("term") {
            Some(t) => str_eq(t.as_str(), "true"),
            None => false,
        };
        let key = e.clone();
        plan(ExecAction::AppLaunch { cmd: e, terminal: term }, exit0, false, Some(key), None)
    } else if str_eq(ms, "web_launcher") || str_eq(ms, "bookmarks") {
        let engine = match attrs.get("engine") {
            Some(e) => owned(e),
            None => lit("plain"),
        };
        match exec_attr {
            Some(q) => plan(
                ExecAction::WebSearch { engine, query: owned(q) },
                exit0,
                true,
                None,
                None,
            ),
            None => match attrs.get("keyword") {
                Some(q) => {
                    let mut key = lit("websearch-");
                    key.append(engine.as_str());
                    plan(
                        ExecAction::WebSearch { engine, query: owned(q) },
                        exit0,
                        true,
                        Some(key),
                        None,
                    )
                },
                None => plan(
                    ExecAction::WebSearch { engine, query: String::new() },
                    exit0,
                    true,
                    None,
                    None,
                ),
            },
        }
    } else if str_eq(ms, "command") {
        let e = match exec_attr {
            Some(e) => owned(e),
            None => String::new(),
        };
        let k = match attrs.get("keyword") {
            Some(k) => owned(k),
            None => String::new(),
        };
        let key = e.clone();
        plan(ExecAction::Command { cmd: e, keyword: k }, exit0, true, None, Some(key))
    } else if str_eq(ms, "copy") {
        let field: Option<String> = match attrs.get("field") {
            Some(f) => Some(owned(f)),
            None => match config_field {
                Some(f) => Some(lit(f)),
                None => None,
            },
        };
        match field {
            Some(f) => match attrs.get(f.as_str()) {
                Some(out) => plan(ExecAction::Copy(owned(out)), exit0, false, None, None),
                None => plan(ExecAction::Nothing, exit0, false, None, None),
            },
            None => match first_of(result, exec_attr) {
                Some(out) => plan(ExecAction::Copy(owned(out)), exit0, true, None, None),
                None => plan(ExecAction::Nothing, exit0, false, None, None),
            },
        }
    } else if str_eq(ms, "print") {
        match attrs.get("field") {
            Some(f) => match attrs.get(f.as_str()) {
                Some(out) => plan(ExecAction::Print(owned(out)), exit0, false, None, None),
                None => plan(ExecAction::Nothing, exit0, false, None, None),
            },
            None => match first_of(result, exec_attr) {
                Some(out) => plan(ExecAction::Print(owned(out)), exit0, false, None, None),
                None => plan(ExecAction::Nothing, exit0, false, None, None),
            },
        }
    } else if str_eq(ms, "teams_event") {
        match attrs.get("meeting_url") {
            Some(u) => plan(ExecAction::TeamsLaunch(owned(u)), exit0, false, None, None),
            None => plan(ExecAction::Nothing, exit0, false, None, None),
        }
    } else if str_eq(ms, "emoji_picker") {
        plan(ExecAction::EmojiPicker, false, false, None, None)
    } else if str_eq(ms, "theme_picker") {
        match first_of(result, exec_attr) {
            Some(t) => plan(ExecAction::SelectTheme(owned(t)), exit0, true, None, None),
            None => plan(ExecAction::Nothing, false, false, None, None),
        }
    } else if str_eq(ms, "next") {
        let content = match attrs.get("next_content") {
            Some(c) => trim_str(c.as_str()),
            None => lit("No next_content provided..."),
        };
        plan(ExecAction::NextPage(content), false, false, None, None)
    } else if str_eq(ms, "play-pause") || str_eq(ms, "audio_sink") {
        match attrs.get("player") {
            Some(p) => plan(ExecAction::PlayPause(owned(p)), exit0, true, None, None),
            None => plan(ExecAction::Nothing, exit0, false, None, None),
        }
    } else if str_eq(ms, "kill-process") {
        let parent = match attrs.get("parent-pid") {
            Some(p) => parse_i32(p.as_str()),
            None => None,
        };
        let child = match attrs.get("child-pid") {
            Some(c) => parse_i32(c.as_str()),
            None => None,
        };
        match (parent, child) {
            (Some(p), Some(c)) => plan(
                ExecAction::KillProcess { parent: p, child: c },
                exit0,
                false,
                None,
                None,
            ),
            _ => plan(ExecAction::Nothing, exit0, false, None, None),
        }
    } else if str_eq(ms, "debug") {
        let what = match exec_attr {
            Some(e) => owned(e),
            None => String::new(),
        };
        let w = what.as_str();
        if str_eq(w, "show_errors") {
            plan(ExecAction::ShowErrors, false, false, None, Some(lit("debug.show_errors")))
        } else if str_eq(w, "clear_cache") {
            plan(ExecAction::ClearCache, exit0, false, None, Some(lit("debug.clear_cache")))
        } else if str_eq(w, "reset_counts") {
            plan(ExecAction::ResetCounts, exit0, false, None, Some(lit("debug.reset_counts")))
        } else if str_eq(w, "reset_log") {
            plan(ExecAction::ResetLog, exit0, true, None, None)
        } else if str_eq(w, "test_error") {
            plan(ExecAction::TestError, false, false, None, None)
        } else {
            plan(ExecAction::Nothing, exit0, false, None, None)
        }
    } else if str_eq(ms, "clear_cache") {
        plan(ExecAction::ClearCache, exit0, false, None, None)
    } else {
        match result {
            Some(out) => plan(ExecAction::Print(owned(out)), exit0, false, None, None),
            None => {
                let mut msg = lit("Return method \"");
                msg.append(ms);
                msg.append("\" not recognized");
                plan(ExecAction::Print(msg), exit0, false, None, None)
            },
        }
    };
    Some(p)
}

/// Whether the window closes after the action of `plan` ran with the outcome
/// `succeeded`; `do_exit`, where given, decides instead.
pub fn settle_exit(plan: &ExecPlan, succeeded: bool, do_exit: Option<bool>) -> (r: bool)
    ensures
        r == settle_spec(plan@, succeeded, do_exit),
{
    match do_exit {
        Some(e) => e,
        None => if !succeeded && plan.failure_keeps_open {
            false
        } else {
            plan.exit
        },
    }
}

/// A command row runs its own command with the keyword typed on it: the
/// planned command is the row's `exec` attribute (empty where it has none)
/// and its keyword the row's `keyword` attribute (empty where it has none);
/// the window may close afterwards as the row's `exit` says, stays open
/// where the command fails, and the command is counted once it ran.
pub proof fn lemma_command_row_plan(m: Map<Seq<char>, Seq<char>>, cfg_field: Option<Seq<char>>)
    requires
        m.contains_key("method"@),
        m["method"@] == "command"@,
    ensures
        plan_for(m, cfg_field) matches Some(p) && p.action matches ActionView::Command { cmd, keyword } && {
            &&& (m.contains_key("exec"@) ==> cmd == m["exec"@])
            &&& (!m.contains_key("exec"@) ==> cmd.len() == 0)
            &&& (m.contains_key("keyword"@) ==> keyword == m["keyword"@])
            &&& (!m.contains_key("keyword"@) ==> keyword.len() == 0)
            &&& p.failure_keeps_open
            &&& p.count_always is None
            &&& p.count_on_success == Some(cmd)
            &&& p.exit == (!m.contains_key("exit"@) || m["exit"@] == "true"@)
        },
{
    reveal_strlit("command");
    reveal_strlit("categories");
    reveal_strlit("app_launcher");
    reveal_strlit("web_launcher");
    reveal_strlit("bookmarks");
    assert("command"@ != "categories"@) by {
        assert("command"@[1] != "categories"@[1]);
    }
    assert("command"@ != "app_launcher"@) by {
        assert("command"@.len() != "app_launcher"@.len());
    }
    assert("command"@ != "web_launcher"@) by {
        assert("command"@.len() != "web_launcher"@.len());
    }
    assert("command"@ != "bookmarks"@) by {
        assert("command"@[0] != "bookmarks"@[0]);
    }
}

} // verus!
