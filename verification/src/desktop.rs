//! Reading `.desktop` files into the applications the launcher lists.
use vstd::prelude::*;
use crate::ignore::{any_match, should_ignore};
use crate::text::{
    ascii_lower, ascii_lower_chars, chars_of, ends_with, ends_with_chars, lowercase, seq_eq,
    starts_with, starts_with_chars, string_of, trim, trim_chars,
};

verus! {

pub open spec fn opt_view(o: Option<String>) -> Option<Seq<char>> {
    match o {
        Some(s) => Some(s@),
        None => None,
    }
}

/// An extra action of an application, such as "New Window".
pub struct ApplicationAction {
    pub name: Option<String>,
    pub command: Option<String>,
    pub icon: Option<String>,
    pub method: String,
    pub exit: bool,
}

pub ghost struct ActionSpec {
    pub name: Option<Seq<char>>,
    pub command: Option<Seq<char>>,
    pub icon: Option<Seq<char>>,
    pub method: Seq<char>,
    pub exit: bool,
}

impl View for ApplicationAction {
    type V = ActionSpec;

    open spec fn view(&self) -> ActionSpec {
        ActionSpec {
            name: opt_view(self.name),
            command: opt_view(self.command),
            icon: opt_view(self.icon),
            method: self.method@,
            exit: self.exit,
        }
    }
}

pub open spec fn new_action_spec(method: Seq<char>) -> ActionSpec {
    ActionSpec { name: None, command: None, icon: None, method, exit: true }
}

/// An action that can be offered: it has a name and a command.
pub open spec fn action_valid(a: ActionSpec) -> bool {
    a.name is Some && a.command is Some
}

/// An action with name, command and icon.
pub open spec fn action_full(a: ActionSpec) -> bool {
    a.name is Some && a.command is Some && a.icon is Some
}

impl ApplicationAction {
    pub fn new(method: &str) -> (r: ApplicationAction)
        ensures
            r@ == new_action_spec(method@),
    {
        ApplicationAction {
            name: None,
            command: None,
            icon: None,
            method: String::from_str(method),
            exit: true,
        }
    }

    pub fn is_valid(&self) -> (r: bool)
        ensures
            r == action_valid(self@),
    {
        self.name.is_some() && self.command.is_some()
    }

    pub fn is_full(&self) -> (r: bool)
        ensures
            r == action_full(self@),
    {
        self.name.is_some() && self.command.is_some() && self.icon.is_some()
    }

    pub fn duplicate(&self) -> (r: ApplicationAction)
        ensures
            r@ == self@,
    {
        ApplicationAction {
            name: self.name.clone(),
            command: self.command.clone(),
            icon: self.icon.clone(),
            method: self.method.clone(),
            exit: self.exit,
        }
    }
}

/// User overrides for an application, keyed by its name.
pub struct SherlockAlias {
    pub name: Option<String>,
    pub icon: Option<String>,
    pub command: Option<String>,
    pub keywords: Option<String>,
}

/// An application read from a desktop entry.
pub struct DesktopApp {
    pub name: String,
    pub icon: Option<String>,
    pub command: Option<String>,
    pub search_string: String,
    pub terminal: bool,
    pub actions: Vec<ApplicationAction>,
}

pub ghost struct AppSpec {
    pub name: Seq<char>,
    pub icon: Option<Seq<char>>,
    pub command: Option<Seq<char>>,
    pub search_string: Seq<char>,
    pub terminal: bool,
    pub actions: Seq<ActionSpec>,
}

pub open spec fn action_views(v: Seq<ApplicationAction>) -> Seq<ActionSpec> {
    v.map_values(|a: ApplicationAction| a@)
}

impl View for DesktopApp {
    type V = AppSpec;

    open spec fn view(&self) -> AppSpec {
        AppSpec {
            name: self.name@,
            icon: opt_view(self.icon),
            command: opt_view(self.command),
            search_string: self.search_string@,
            terminal: self.terminal,
            actions: action_views(self.actions@),
        }
    }
}

/// The state of reading a desktop entry, line by line.
pub ghost struct ReadState {
    pub section: Option<Seq<char>>,
    pub action: ActionSpec,
    pub app: AppSpec,
    pub dropped: bool,
}

pub open spec fn empty_app() -> AppSpec {
    AppSpec {
        name: Seq::empty(),
        icon: None,
        command: None,
        search_string: Seq::empty(),
        terminal: false,
        actions: Seq::empty(),
    }
}

pub open spec fn start_state() -> ReadState {
    ReadState {
        section: None,
        action: new_action_spec("app_launcher"@),
        app: empty_app(),
        dropped: false,
    }
}

/// Position of the first `c` in `s`.
pub open spec fn index_of(s: Seq<char>, c: char) -> Option<int>
    decreases s.len(),
{
    if s.len() == 0 {
        None
    } else if s[0] == c {
        Some(0)
    } else {
        match index_of(s.drop_first(), c) {
            Some(i) => Some(i + 1),
            None => None,
        }
    }
}

/// The line cut at its first `=` into key and value, both trimmed; the key in
/// ASCII lower case.
pub open spec fn key_value(line: Seq<char>) -> Option<(Seq<char>, Seq<char>)> {
    match index_of(line, '=') {
        Some(i) => Some((ascii_lower(trim(line.take(i))), trim(line.skip(i + 1)))),
        None => None,
    }
}

/// `value` equals "true", ignoring ASCII case.
pub open spec fn is_true(value: Seq<char>) -> bool {
    ascii_lower(value) == "true"@
}

/// Reading one line of a desktop entry.
pub open spec fn read_step(st: ReadState, raw: Seq<char>, patterns: Seq<String>) -> ReadState {
    let line = trim(raw);
    if st.dropped || line.len() == 0 || starts_with(line, "#"@) {
        st
    } else if starts_with(line, "["@) && ends_with(line, "]"@) {
        ReadState {
            section: Some(line.subrange(1, line.len() - 1)),
            action: new_action_spec("app_launcher"@),
            app: AppSpec {
                actions: if action_valid(st.action) {
                    st.app.actions.push(st.action)
                } else {
                    st.app.actions
                },
                ..st.app
            },
            ..st
        }
    } else {
        match st.section {
            None => st,
            Some(section) => match key_value(line) {
                None => st,
                Some((key, value)) => if section == "Desktop Entry"@ {
                    if key == "name"@ {
                        if any_match(patterns, lowercase(value)) {
                            ReadState { dropped: true, ..st }
                        } else {
                            ReadState { app: AppSpec { name: value, ..st.app }, ..st }
                        }
                    } else if key == "icon"@ {
                        ReadState { app: AppSpec { icon: Some(value), ..st.app }, ..st }
                    } else if key == "exec"@ {
                        ReadState { app: AppSpec { command: Some(value), ..st.app }, ..st }
                    } else if key == "nodisplay"@ && is_true(value) {
                        ReadState { dropped: true, ..st }
                    } else if key == "terminal"@ {
                        ReadState { app: AppSpec { terminal: is_true(value), ..st.app }, ..st }
                    } else if key == "keywords"@ {
                        ReadState { app: AppSpec { search_string: value, ..st.app }, ..st }
                    } else {
                        st
                    }
                } else {
                    let a = if key == "name"@ {
                        ActionSpec { name: Some(value), ..st.action }
                    } else if key == "exec"@ {
                        ActionSpec { command: Some(value), ..st.action }
                    } else if key == "icon"@ {
                        ActionSpec { icon: Some(value), ..st.action }
                    } else {
                        st.action
                    };
                    if action_full(a) {
                        ReadState {
                            section: None,
                            action: new_action_spec("app_launcher"@),
                            app: AppSpec { actions: st.app.actions.push(a), ..st.app },
                            dropped: false,
                        }
                    } else {
                        ReadState { action: a, ..st }
                    }
                },
            },
        }
    }
}

/// The state after reading `lines` in order.
pub open spec fn read_lines(lines: Seq<String>, patterns: Seq<String>) -> ReadState
    decreases lines.len(),
{
    if lines.len() == 0 {
        start_state()
    } else {
        read_step(read_lines(lines.drop_last(), patterns), lines.last()@, patterns)
    }
}

/// Actions without an icon take the application's icon.
pub open spec fn with_icons(actions: Seq<ActionSpec>, icon: Option<Seq<char>>) -> Seq<ActionSpec> {
    actions.map_values(
        |a: ActionSpec|
            if a.icon is None {
                ActionSpec { icon: icon, ..a }
            } else {
                a
            },
    )
}

pub ghost struct AliasSpec {
    pub name: Option<Seq<char>>,
    pub icon: Option<Seq<char>>,
    pub command: Option<Seq<char>>,
    pub keywords: Option<Seq<char>>,
}

impl View for SherlockAlias {
    type V = AliasSpec;

    open spec fn view(&self) -> AliasSpec {
        AliasSpec {
            name: opt_view(self.name),
            icon: opt_view(self.icon),
            command: opt_view(self.command),
            keywords: opt_view(self.keywords),
        }
    }
}

pub open spec fn or_else(a: Option<Seq<char>>, b: Seq<char>) -> Seq<char> {
    match a {
        Some(x) => x,
        None => b,
    }
}

pub open spec fn or_opt(a: Option<Seq<char>>, b: Option<Seq<char>>) -> Option<Seq<char>> {
    match a {
        Some(x) => Some(x),
        None => b,
    }
}

/// The application after the user's alias, if any, is applied; its search
/// string becomes `name;keywords`.
pub open spec fn aliased(app: AppSpec, alias: Option<AliasSpec>) -> AppSpec {
    match alias {
        Some(al) => {
            let name = or_else(al.name, app.name);
            AppSpec {
                name,
                icon: or_opt(al.icon, app.icon),
                command: or_opt(al.command, app.command),
                search_string: name + ";"@ + or_else(al.keywords, app.search_string),
                ..app
            }
        },
        None => AppSpec { search_string: app.name + ";"@ + app.search_string, ..app },
    }
}

/// What reading the lines of a desktop entry gives: nothing where it is
/// hidden or ignored.
pub open spec fn desktop_entry(
    lines: Seq<String>,
    patterns: Seq<String>,
    alias: Option<AliasSpec>,
) -> Option<AppSpec> {
    let st = read_lines(lines, patterns);
    if st.dropped {
        None
    } else {
        Some(
            aliased(
                AppSpec { actions: with_icons(st.app.actions, st.app.icon), ..st.app },
                alias,
            ),
        )
    }
}

/// The reading state in executable form.
struct Reader {
    section: Option<String>,
    action: ApplicationAction,
    app: DesktopApp,
    dropped: bool,
}

impl View for Reader {
    type V = ReadState;

    closed spec fn view(&self) -> ReadState {
        ReadState {
            section: opt_view(self.section),
            action: self.action@,
            app: self.app@,
            dropped: self.dropped,
        }
    }
}

/// Position of the first `c` in `s`.
pub fn find_char(s: &[char], c: char) -> (r: Option<usize>)
    ensures
        match r {
            Some(i) => i < s@.len() && index_of(s@, c) == Some(i as int),
            None => index_of(s@, c) is None,
        },
{
    proof {
        lemma_index_start(s@, c);
    }
    let mut i: usize = 0;
    while i < s.len()
        invariant
            i <= s@.len(),
            index_of(s@, c) == match index_of(s@.skip(i as int), c) {
                Some(j) => Some(j + i),
                None => None,
            },
        decreases s@.len() - i,
    {
        assert(s@.skip(i as int).drop_first() =~= s@.skip(i + 1));
        if s[i] == c {
            return Some(i);
        }
        i = i + 1;
    }
    None
}

proof fn lemma_index_of(s: Seq<char>, c: char)
    ensures
        match index_of(s, c) {
            Some(i) => 0 <= i < s.len() && s[i] == c,
            None => true,
        },
    decreases s.len(),
{
    if s.len() > 0 {
        lemma_index_of(s.drop_first(), c);
    }
}

proof fn lemma_index_start(s: Seq<char>, c: char)
    ensures
        index_of(s, c) == match index_of(s.skip(0), c) {
            Some(j) => Some(j + 0),
            None => None,
        },
{
    assert(s.skip(0) =~= s);
}

fn slice_of(s: &[char], a: usize, b: usize) -> (r: Vec<char>)
    requires
        a <= b <= s@.len(),
    ensures
        r@ == s@.subrange(a as int, b as int),
{
    let mut r: Vec<char> = Vec::new();
    let mut k: usize = a;
    while k < b
        invariant
            a <= k <= b <= s@.len(),
            r@ == s@.subrange(a as int, k as int),
        decreases b - k,
    {
        r.push(s[k]);
        k = k + 1;
        assert(r@ =~= s@.subrange(a as int, k as int));
    }
    r
}

fn is_true_chars(v: &[char]) -> (r: bool)
    ensures
        r == is_true(v@),
{
    let l = ascii_lower_chars(v);
    let t: Vec<char> = vec!['t', 'r', 'u', 'e'];
    proof {
        reveal_strlit("true");
        assert(t@ =~= "true"@);
    }
    seq_eq(&l, &t)
}

fn lit_chars(s: &str) -> (r: Vec<char>)
    ensures
        r@ == s@,
{
    chars_of(s)
}

fn step(rd: &mut Reader, raw: &str, patterns: &Vec<String>)
    ensures
        final(rd)@ == read_step(old(rd)@, raw@, patterns@),
{
    let rc = chars_of(raw);
    let line = trim_chars(&rc);
    let hash = lit_chars("#");
    let open = lit_chars("[");
    let close = lit_chars("]");
    if rd.dropped || line.len() == 0 || starts_with_chars(&line, &hash) {
        return ;
    }
    if starts_with_chars(&line, &open) && ends_with_chars(&line, &close) {
        proof {
            reveal_strlit("[");
            reveal_strlit("]");
            if line@.len() == 1 {
                assert(line@.subrange(0, 1)[0] == '[');
                assert(line@.subrange(0, 1)[0] == ']');
            }
        }
        let name = slice_of(&line, 1, line.len() - 1);
        rd.section = Some(string_of(&name));
        let mut prev = ApplicationAction::new("app_launcher");
        std::mem::swap(&mut rd.action, &mut prev);
        if prev.is_valid() {
            rd.app.actions.push(prev);
            assert(action_views(rd.app.actions@) =~= action_views(old(rd).app.actions@).push(
                prev@,
            ));
        }
        return ;
    }
    let section = match &rd.section {
        Some(s) => s.clone(),
        None => {
            return ;
        },
    };
    let eq = match find_char(&line, '=') {
        Some(i) => i,
        None => {
            return ;
        },
    };
    proof {
        lemma_index_of(line@, '=');
    }
    let kraw = slice_of(&line, 0, eq);
    let vraw = slice_of(&line, eq + 1, line.len());
    assert(kraw@ =~= line@.take(eq as int));
    assert(vraw@ =~= line@.skip(eq + 1));
    let kt = trim_chars(&kraw);
    let key = ascii_lower_chars(&kt);
    let value = trim_chars(&vraw);
    let k_name = lit_chars("name");
    let k_icon = lit_chars("icon");
    let k_exec = lit_chars("exec");
    let k_nodisplay = lit_chars("nodisplay");
    let k_terminal = lit_chars("terminal");
    let k_keywords = lit_chars("keywords");
    let entry = lit_chars("Desktop Entry");
    let sc = chars_of(section.as_str());
    if seq_eq(&sc, &entry) {
        if seq_eq(&key, &k_name) {
            let v = string_of(&value);
            if should_ignore(patterns, v.as_str()) {
                rd.dropped = true;
            } else {
                rd.app.name = v;
            }
        } else if seq_eq(&key, &k_icon) {
            rd.app.icon = Some(string_of(&value));
        } else if seq_eq(&key, &k_exec) {
            rd.app.command = Some(string_of(&value));
        } else if seq_eq(&key, &k_nodisplay) && is_true_chars(&value) {
            rd.dropped = true;
        } else if seq_eq(&key, &k_terminal) {
            rd.app.terminal = is_true_chars(&value);
        } else if seq_eq(&key, &k_keywords) {
            rd.app.search_string = string_of(&value);
        }
    } else {
        if seq_eq(&key, &k_name) {
            rd.action.name = Some(string_of(&value));
        } else if seq_eq(&key, &k_exec) {
            rd.action.command = Some(string_of(&value));
        } else if seq_eq(&key, &k_icon) {
            rd.action.icon = Some(string_of(&value));
        }
        if rd.action.is_full() {
            let mut full = ApplicationAction::new("app_launcher");
            std::mem::swap(&mut rd.action, &mut full);
            rd.app.actions.push(full);
            rd.section = None;
            assert(action_views(rd.app.actions@) =~= action_views(old(rd).app.actions@).push(
                full@,
            ));
        }
    }
}

/// Reads the lines of a desktop entry. `patterns` are the ignore patterns
/// and `alias` the user's overrides for this application. Gives `None` for
/// entries that are hidden (`NoDisplay=true`) or whose name is ignored.
pub fn parse_desktop_entry(
    lines: &Vec<String>,
    patterns: &Vec<String>,
    alias: Option<SherlockAlias>,
) -> (r: Option<DesktopApp>)
    ensures
        match r {
            Some(app) => desktop_entry(
                lines@,
                patterns@,
                match alias {
                    Some(a) => Some(a@),
                    None => None,
                },
            ) == Some(app@),
            None => desktop_entry(
                lines@,
                patterns@,
                match alias {
                    Some(a) => Some(a@),
                    None => None,
                },
            ) is None,
        },
{
    let mut rd = Reader {
        section: None,
        action: ApplicationAction::new("app_launcher"),
        app: DesktopApp {
            name: String::new(),
            icon: None,
            command: None,
            search_string: String::new(),
            terminal: false,
            actions: Vec::new(),
        },
        dropped: false,
    };
    assert(action_views(rd.app.actions@) =~= Seq::<ActionSpec>::empty());
    let mut i: usize = 0;
    while i < lines.len()
        invariant
            i <= lines@.len(),
            rd@ == read_lines(lines@.take(i as int), patterns@),
        decreases lines@.len() - i,
    {
        assert(lines@.take(i + 1).drop_last() =~= lines@.take(i as int));
        step(&mut rd, lines[i].as_str(), patterns);
        i = i + 1;
    }
    assert(lines@.take(lines@.len() as int) =~= lines@);
    if rd.dropped {
        return None;
    }
    let ghost st = rd@;
    let mut app = rd.app;
    let ghost before = action_views(app.actions@);
    assert(app@ == st.app);
    let mut k: usize = 0;
    while k < app.actions.len()
        invariant
            k <= app.actions@.len() == before.len(),
            app@.name == st.app.name,
            app@.icon == st.app.icon,
            app@.command == st.app.command,
            app@.search_string == st.app.search_string,
            app@.terminal == st.app.terminal,
            forall|j: int|
                0 <= j < k ==> #[trigger] app.actions@[j]@ == with_icons(before, opt_view(app.icon))[j],
            forall|j: int| k <= j < app.actions@.len() ==> #[trigger] app.actions@[j]@ == before[j],
        decreases app.actions@.len() - k,
    {
        if app.actions[k].icon.is_none() {
            let mut a = app.actions[k].duplicate();
            a.icon = app.icon.clone();
            app.actions.set(k, a);
        }
        k = k + 1;
    }
    assert(action_views(app.actions@) =~= with_icons(before, opt_view(app.icon)));
    let ghost base = AppSpec { actions: with_icons(st.app.actions, st.app.icon), ..st.app };
    assert(before == st.app.actions);
    assert(opt_view(app.icon) == st.app.icon);
    assert(app@.actions =~= base.actions);
    assert(app@.name == base.name);
    assert(app@ == base);
    let ghost al_view = match &alias {
        Some(a) => Some(a@),
        None => None::<AliasSpec>,
    };
    match alias {
        Some(al) => {
            match al.name {
                Some(n) => {
                    app.name = n;
                },
                None => {},
            }
            match al.icon {
                Some(ic) => {
                    app.icon = Some(ic);
                },
                None => {},
            }
            let mut search = app.name.clone();
            search.append(";");
            match &al.keywords {
                Some(kw) => search.append(kw.as_str()),
                None => search.append(app.search_string.as_str()),
            }
            app.search_string = search;
            assert(app.search_string@ =~= aliased(base, al_view).search_string);
            match al.command {
                Some(c) => {
                    app.command = Some(c);
                },
                None => {},
            }
        },
        None => {
            let mut search = app.name.clone();
            search.append(";");
            search.append(app.search_string.as_str());
            app.search_string = search;
            assert(app.search_string@ =~= aliased(base, al_view).search_string);
        },
    }
    assert(app@ == aliased(base, al_view));
    Some(app)
}

} // verus!
