//! The command lines that launching applications, commands, web searches and
//! meetings runs.
use vstd::prelude::*;
use crate::error::{SherlockError, SherlockErrorType};
use crate::text::{
    char_is_ws, chars_of, contains, contains_str, has_at, is_ws, join_first, replace, replace_str, split,
    split_chars, starts_with, starts_with_chars, str_eq, string_of, trim, trim_chars,
};

verus! {

/// The characters of each string.
pub open spec fn views(v: Seq<String>) -> Seq<Seq<char>> {
    v.map_values(|s: String| s@)
}

pub open spec fn opt_str(o: Option<&str>) -> Option<Seq<char>> {
    match o {
        Some(s) => Some(s@),
        None => None,
    }
}

/// The global prefix as it stands before a command.
pub open spec fn prefix_part(prefix: Option<Seq<char>>) -> Seq<char> {
    match prefix {
        Some(p) => p + " "@,
        None => Seq::empty(),
    }
}

/// The global flags as they stand after a command.
pub open spec fn flags_part(flags: Option<Seq<char>>) -> Seq<char> {
    match flags {
        Some(f) => " "@ + f,
        None => Seq::empty(),
    }
}

/// The shell line for one command: prefix, command and flags, with every
/// escaped double quote `\"` turned into a single quote.
pub open spec fn raw_command(cmd: Seq<char>, prefix: Option<Seq<char>>, flags: Option<Seq<char>>) -> Seq<char> {
    replace(prefix_part(prefix) + cmd + flags_part(flags), "\\\""@, "'"@)
}

/// The shell lines for the pieces of a command line: each piece trimmed,
/// empty ones dropped.
pub open spec fn shell_lines(
    pieces: Seq<Seq<char>>,
    prefix: Option<Seq<char>>,
    flags: Option<Seq<char>>,
) -> Seq<Seq<char>>
    decreases pieces.len(),
{
    if pieces.len() == 0 {
        Seq::empty()
    } else {
        let rest = shell_lines(pieces.drop_last(), prefix, flags);
        let c = trim(pieces.last());
        if c.len() == 0 {
            rest
        } else {
            rest.push(raw_command(c, prefix, flags))
        }
    }
}

/// The shell lines that running `exec` with `keyword` spawns: `{keyword}`
/// is filled in and the line is cut at every `&`.
pub open spec fn command_lines(
    exec: Seq<char>,
    keyword: Seq<char>,
    prefix: Option<Seq<char>>,
    flags: Option<Seq<char>>,
) -> Seq<Seq<char>> {
    shell_lines(split(replace(exec, "{keyword}"@, keyword), '&'), prefix, flags)
}

fn raw_line(cmd: &[char], prefix: Option<&str>, flags: Option<&str>) -> (r: String)
    ensures
        r@ == raw_command(cmd@, opt_str(prefix), opt_str(flags)),
{
    let mut line = String::new();
    match prefix {
        Some(p) => {
            line.append(p);
            line.append(" ");
        },
        None => {},
    }
    let c = string_of(cmd);
    line.append(c.as_str());
    match flags {
        Some(f) => {
            line.append(" ");
            line.append(f);
        },
        None => {},
    }
    proof {
        reveal_strlit(" ");
        reveal_strlit("\\\"");
        assert(line@ =~= prefix_part(opt_str(prefix)) + cmd@ + flags_part(opt_str(flags)));
    }
    replace_str(line.as_str(), "\\\"", "'")
}

/// The shell lines that running `exec` spawns, one per `&`-separated part,
/// after `{keyword}` is replaced by `keyword`. Each stands between the global
/// `prefix` and `flags`; each is run with `sh -c`. Line `k` runs command `k`
/// of `command_segments(exec, keyword)`: the lines are spawned in order, and
/// where spawning one fails, `run_step` over those commands names the
/// failing command (without prefix or flags) and no later line is spawned.
pub fn command_launch(exec: &str, keyword: &str, prefix: Option<&str>, flags: Option<&str>) -> (r:
    Vec<String>)
    ensures
        views(r@) == command_lines(exec@, keyword@, opt_str(prefix), opt_str(flags)),
        r@.len() == segments(split(replace(exec@, "{keyword}"@, keyword@), '&')).len(),
        forall|k: int|
            0 <= k < r@.len() ==> #[trigger] r@[k]@ == raw_command(
                segments(split(replace(exec@, "{keyword}"@, keyword@), '&'))[k],
                opt_str(prefix),
                opt_str(flags),
            ),
{
    proof {
        lemma_lines_follow_segments(
            split(replace(exec@, "{keyword}"@, keyword@), '&'),
            opt_str(prefix),
            opt_str(flags),
        );
    }
    proof {
        reveal_strlit("{keyword}");
    }
    let filled = replace_str(exec, "{keyword}", keyword);
    let fc = chars_of(filled.as_str());
    let pieces = split_chars(&fc, '&');
    let ghost ps = split(filled@, '&');
    let mut r: Vec<String> = Vec::new();
    let mut i: usize = 0;
    while i < pieces.len()
        invariant
            i <= pieces@.len() == ps.len(),
            forall|k: int| 0 <= k < pieces@.len() ==> #[trigger] pieces@[k]@ == ps[k],
            views(r@) == shell_lines(ps.take(i as int), opt_str(prefix), opt_str(flags)),
        decreases pieces@.len() - i,
    {
        let c = trim_chars(pieces[i].as_slice());
        proof {
            assert(ps.take(i + 1).drop_last() =~= ps.take(i as int));
            assert(ps.take(i + 1).last() == ps[i as int]);
        }
        if c.len() > 0 {
            let line = raw_line(&c, prefix, flags);
            r.push(line);
            assert(views(r@) =~= shell_lines(ps.take(i as int), opt_str(prefix), opt_str(flags)).push(line@));
        }
        i = i + 1;
    }
    assert(ps.take(ps.len() as int) =~= ps);
    assert(views(r@).len() == r@.len());
    assert forall|k: int| 0 <= k < r@.len() implies #[trigger] r@[k]@ == raw_command(
        segments(split(replace(exec@, "{keyword}"@, keyword@), '&'))[k],
        opt_str(prefix),
        opt_str(flags),
    ) by {
        assert(views(r@)[k] == r@[k]@);
    }
    r
}

/// The commands of the pieces of a command line: each piece trimmed, empty
/// ones dropped.
pub open spec fn segments(pieces: Seq<Seq<char>>) -> Seq<Seq<char>>
    decreases pieces.len(),
{
    if pieces.len() == 0 {
        Seq::empty()
    } else {
        let rest = segments(pieces.drop_last());
        let c = trim(pieces.last());
        if c.len() == 0 {
            rest
        } else {
            rest.push(c)
        }
    }
}

/// Each shell line is the command of the same position put between the
/// prefix and the flags.
pub proof fn lemma_lines_follow_segments(pieces: Seq<Seq<char>>, prefix: Option<Seq<char>>, flags: Option<Seq<char>>)
    ensures
        shell_lines(pieces, prefix, flags).len() == segments(pieces).len(),
        forall|k: int|
            0 <= k < segments(pieces).len() ==> #[trigger] shell_lines(pieces, prefix, flags)[k]
                == raw_command(segments(pieces)[k], prefix, flags),
    decreases pieces.len(),
{
    if pieces.len() > 0 {
        lemma_lines_follow_segments(pieces.drop_last(), prefix, flags);
    }
}

/// The commands that running `exec` with `keyword` spawns, before the
/// prefix and flags are put round them; a failed spawn names its command.
pub fn command_segments(exec: &str, keyword: &str) -> (r: Vec<String>)
    ensures
        views(r@) == segments(split(replace(exec@, "{keyword}"@, keyword@), '&')),
{
    proof {
        reveal_strlit("{keyword}");
    }
    let filled = replace_str(exec, "{keyword}", keyword);
    let fc = chars_of(filled.as_str());
    let pieces = split_chars(&fc, '&');
    let ghost ps = split(filled@, '&');
    let mut r: Vec<String> = Vec::new();
    let mut i: usize = 0;
    while i < pieces.len()
        invariant
            i <= pieces@.len() == ps.len(),
            forall|k: int| 0 <= k < pieces@.len() ==> #[trigger] pieces@[k]@ == ps[k],
            views(r@) == segments(ps.take(i as int)),
        decreases pieces@.len() - i,
    {
        let c = trim_chars(pieces[i].as_slice());
        proof {
            assert(ps.take(i + 1).drop_last() =~= ps.take(i as int));
            assert(ps.take(i + 1).last() == ps[i as int]);
        }
        if c.len() > 0 {
            let seg = string_of(&c);
            r.push(seg);
            assert(views(r@) =~= segments(ps.take(i as int)).push(seg@));
        }
        i = i + 1;
    }
    assert(ps.take(ps.len() as int) =~= ps);
    r
}

/// How a run of outside steps (spawning commands, killing processes) goes
/// on after one of them.
pub enum RunStep {
    /// Carry out the step at this position.
    Next(usize),
    /// Every step succeeded.
    Finished,
    /// The run stops at this error.
    Failed(SherlockError),
}

/// After step `i` of a run whose steps concern `subjects` went as `failure`
/// says (`None`: it succeeded; `Some(m)`: it failed with message `m`): the
/// next step or the end where it succeeded; where it failed, the run stops
/// there with a `CommandExecutionError` naming the step's subject.
pub fn run_step(subjects: &Vec<String>, i: usize, failure: Option<String>) -> (r: RunStep)
    requires
        i < subjects@.len(),
    ensures
        match failure {
            None => if i + 1 < subjects@.len() {
                r == RunStep::Next((i + 1) as usize)
            } else {
                r is Finished
            },
            Some(m) => r matches RunStep::Failed(e) && (e.error matches SherlockErrorType::CommandExecutionError(c)
                && c@ == subjects@[i as int]@) && e.traceback@ == m@,
        },
{
    match failure {
        None => if i < subjects.len() - 1 {
            RunStep::Next(i + 1)
        } else {
            RunStep::Finished
        },
        Some(m) => RunStep::Failed(
            SherlockError {
                error: SherlockErrorType::CommandExecutionError(subjects[i].clone()),
                traceback: m,
            },
        ),
    }
}

/// The URL template of a known search engine; any other engine is taken to
/// be a template itself.
pub open spec fn engine_template(engine: Seq<char>) -> Seq<char> {
    if engine == "google"@ {
        "https://www.google.com/search?q={keyword}"@
    } else if engine == "bing"@ {
        "https://www.bing.com/search?q={keyword}"@
    } else if engine == "duckduckgo"@ {
        "https://duckduckgo.com/?q={keyword}"@
    } else if engine == "yahoo"@ {
        "https://search.yahoo.com/search?p={keyword}"@
    } else if engine == "baidu"@ {
        "https://www.baidu.com/s?wd={keyword}"@
    } else if engine == "yandex"@ {
        "https://yandex.com/search/?text={keyword}"@
    } else if engine == "ask"@ {
        "https://www.ask.com/web?q={keyword}"@
    } else if engine == "ecosia"@ {
        "https://www.ecosia.org/search?q={keyword}"@
    } else if engine == "qwant"@ {
        "https://www.qwant.com/?q={keyword}"@
    } else if engine == "startpage"@ {
        "https://www.startpage.com/sp/search?q={keyword}"@
    } else if engine == "plain"@ {
        "{keyword}"@
    } else {
        engine
    }
}

/// The address searched for `query` with `engine`; spaces in the query
/// become `+`.
pub open spec fn search_url(engine: Seq<char>, query: Seq<char>) -> Seq<char> {
    replace(engine_template(engine), "{keyword}"@, replace(query, " "@, "+"@))
}

/// The browser command line that opens `url`: it takes the place of `%u`
/// where the browser command has one, and is appended otherwise.
pub open spec fn browser_line(browser: Seq<char>, url: Seq<char>) -> Seq<char> {
    if contains(browser, "%u"@) {
        replace(browser, "%u"@, url)
    } else {
        browser + " "@ + url
    }
}

/// The engines known by name.
pub open spec fn known_engine(e: Seq<char>) -> bool {
    e == "google"@ || e == "bing"@ || e == "duckduckgo"@ || e == "yahoo"@ || e == "baidu"@ || e == "yandex"@ || e == "ask"@ || e == "ecosia"@ || e == "qwant"@ || e == "startpage"@
}

/// The search address of a known engine is that engine's own: it is a
/// secure web address that names the engine and has a place for the
/// search text; `plain` searches the text as it is, and any other engine
/// is taken to be an address itself.
pub proof fn lemma_engine_templates(e: Seq<char>)
    ensures
        known_engine(e) ==> starts_with(engine_template(e), "https://"@) && contains(
            engine_template(e),
            e,
        ) && contains(engine_template(e), "{keyword}"@),
        e == "plain"@ ==> engine_template(e) == "{keyword}"@,
        !known_engine(e) && e != "plain"@ ==> engine_template(e) == e,
{
    reveal_strlit("google");
    reveal_strlit("bing");
    reveal_strlit("duckduckgo");
    reveal_strlit("yahoo");
    reveal_strlit("baidu");
    reveal_strlit("yandex");
    reveal_strlit("ask");
    reveal_strlit("ecosia");
    reveal_strlit("qwant");
    reveal_strlit("startpage");
    reveal_strlit("plain");
    reveal_strlit("https://www.google.com/search?q={keyword}");
    reveal_strlit("https://www.bing.com/search?q={keyword}");
    reveal_strlit("https://duckduckgo.com/?q={keyword}");
    reveal_strlit("https://search.yahoo.com/search?p={keyword}");
    reveal_strlit("https://www.baidu.com/s?wd={keyword}");
    reveal_strlit("https://yandex.com/search/?text={keyword}");
    reveal_strlit("https://www.ask.com/web?q={keyword}");
    reveal_strlit("https://www.ecosia.org/search?q={keyword}");
    reveal_strlit("https://www.qwant.com/?q={keyword}");
    reveal_strlit("https://www.startpage.com/sp/search?q={keyword}");
    reveal_strlit("{keyword}");
    reveal_strlit("https://");
    assert("bing"@ != "google"@) by { assert("bing"@.len() != "google"@.len()); }
    assert("duckduckgo"@ != "google"@) by { assert("duckduckgo"@.len() != "google"@.len()); }
    assert("duckduckgo"@ != "bing"@) by { assert("duckduckgo"@.len() != "bing"@.len()); }
    assert("yahoo"@ != "google"@) by { assert("yahoo"@.len() != "google"@.len()); }
    assert("yahoo"@ != "bing"@) by { assert("yahoo"@.len() != "bing"@.len()); }
    assert("yahoo"@ != "duckduckgo"@) by { assert("yahoo"@.len() != "duckduckgo"@.len()); }
    assert("baidu"@ != "google"@) by { assert("baidu"@.len() != "google"@.len()); }
    assert("baidu"@ != "bing"@) by { assert("baidu"@.len() != "bing"@.len()); }
    assert("baidu"@ != "duckduckgo"@) by { assert("baidu"@.len() != "duckduckgo"@.len()); }
    assert("baidu"@ != "yahoo"@) by { assert("baidu"@[0] != "yahoo"@[0]); }
    assert("yandex"@ != "google"@) by { assert("yandex"@[0] != "google"@[0]); }
    assert("yandex"@ != "bing"@) by { assert("yandex"@.len() != "bing"@.len()); }
    assert("yandex"@ != "duckduckgo"@) by { assert("yandex"@.len() != "duckduckgo"@.len()); }
    assert("yandex"@ != "yahoo"@) by { assert("yandex"@.len() != "yahoo"@.len()); }
    assert("yandex"@ != "baidu"@) by { assert("yandex"@.len() != "baidu"@.len()); }
    assert("ask"@ != "google"@) by { assert("ask"@.len() != "google"@.len()); }
    assert("ask"@ != "bing"@) by { assert("ask"@.len() != "bing"@.len()); }
    assert("ask"@ != "duckduckgo"@) by { assert("ask"@.len() != "duckduckgo"@.len()); }
    assert("ask"@ != "yahoo"@) by { assert("ask"@.len() != "yahoo"@.len()); }
    assert("ask"@ != "baidu"@) by { assert("ask"@.len() != "baidu"@.len()); }
    assert("ask"@ != "yandex"@) by { assert("ask"@.len() != "yandex"@.len()); }
    assert("ecosia"@ != "google"@) by { assert("ecosia"@[0] != "google"@[0]); }
    assert("ecosia"@ != "bing"@) by { assert("ecosia"@.len() != "bing"@.len()); }
    assert("ecosia"@ != "duckduckgo"@) by { assert("ecosia"@.len() != "duckduckgo"@.len()); }
    assert("ecosia"@ != "yahoo"@) by { assert("ecosia"@.len() != "yahoo"@.len()); }
    assert("ecosia"@ != "baidu"@) by { assert("ecosia"@.len() != "baidu"@.len()); }
    assert("ecosia"@ != "yandex"@) by { assert("ecosia"@[0] != "yandex"@[0]); }
    assert("ecosia"@ != "ask"@) by { assert("ecosia"@.len() != "ask"@.len()); }
    assert("qwant"@ != "google"@) by { assert("qwant"@.len() != "google"@.len()); }
    assert("qwant"@ != "bing"@) by { assert("qwant"@.len() != "bing"@.len()); }
    assert("qwant"@ != "duckduckgo"@) by { assert("qwant"@.len() != "duckduckgo"@.len()); }
    assert("qwant"@ != "yahoo"@) by { assert("qwant"@[0] != "yahoo"@[0]); }
    assert("qwant"@ != "baidu"@) by { assert("qwant"@[0] != "baidu"@[0]); }
    assert("qwant"@ != "yandex"@) by { assert("qwant"@.len() != "yandex"@.len()); }
    assert("qwant"@ != "ask"@) by { assert("qwant"@.len() != "ask"@.len()); }
    assert("qwant"@ != "ecosia"@) by { assert("qwant"@.len() != "ecosia"@.len()); }
    assert("startpage"@ != "google"@) by { assert("startpage"@.len() != "google"@.len()); }
    assert("startpage"@ != "bing"@) by { assert("startpage"@.len() != "bing"@.len()); }
    assert("startpage"@ != "duckduckgo"@) by { assert("startpage"@.len() != "duckduckgo"@.len()); }
    assert("startpage"@ != "yahoo"@) by { assert("startpage"@.len() != "yahoo"@.len()); }
    assert("startpage"@ != "baidu"@) by { assert("startpage"@.len() != "baidu"@.len()); }
    assert("startpage"@ != "yandex"@) by { assert("startpage"@.len() != "yandex"@.len()); }
    assert("startpage"@ != "ask"@) by { assert("startpage"@.len() != "ask"@.len()); }
    assert("startpage"@ != "ecosia"@) by { assert("startpage"@.len() != "ecosia"@.len()); }
    assert("startpage"@ != "qwant"@) by { assert("startpage"@.len() != "qwant"@.len()); }
    assert("plain"@ != "google"@) by { assert("plain"@.len() != "google"@.len()); }
    assert("plain"@ != "bing"@) by { assert("plain"@.len() != "bing"@.len()); }
    assert("plain"@ != "duckduckgo"@) by { assert("plain"@.len() != "duckduckgo"@.len()); }
    assert("plain"@ != "yahoo"@) by { assert("plain"@[0] != "yahoo"@[0]); }
    assert("plain"@ != "baidu"@) by { assert("plain"@[0] != "baidu"@[0]); }
    assert("plain"@ != "yandex"@) by { assert("plain"@.len() != "yandex"@.len()); }
    assert("plain"@ != "ask"@) by { assert("plain"@.len() != "ask"@.len()); }
    assert("plain"@ != "ecosia"@) by { assert("plain"@.len() != "ecosia"@.len()); }
    assert("plain"@ != "qwant"@) by { assert("plain"@[0] != "qwant"@[0]); }
    assert("plain"@ != "startpage"@) by { assert("plain"@.len() != "startpage"@.len()); }
    assert(has_at("https://www.google.com/search?q={keyword}"@, "google"@, 12)) by { assert("https://www.google.com/search?q={keyword}"@.subrange(12, 18) =~= "google"@); }
    assert(has_at("https://www.google.com/search?q={keyword}"@, "https://"@, 0)) by { assert("https://www.google.com/search?q={keyword}"@.subrange(0, 8) =~= "https://"@); }
    assert(has_at("https://www.google.com/search?q={keyword}"@, "{keyword}"@, 32)) by { assert("https://www.google.com/search?q={keyword}"@.subrange(32, 41) =~= "{keyword}"@); }
    assert(has_at("https://www.bing.com/search?q={keyword}"@, "bing"@, 12)) by { assert("https://www.bing.com/search?q={keyword}"@.subrange(12, 16) =~= "bing"@); }
    assert(has_at("https://www.bing.com/search?q={keyword}"@, "https://"@, 0)) by { assert("https://www.bing.com/search?q={keyword}"@.subrange(0, 8) =~= "https://"@); }
    assert(has_at("https://www.bing.com/search?q={keyword}"@, "{keyword}"@, 30)) by { assert("https://www.bing.com/search?q={keyword}"@.subrange(30, 39) =~= "{keyword}"@); }
    assert(has_at("https://duckduckgo.com/?q={keyword}"@, "duckduckgo"@, 8)) by { assert("https://duckduckgo.com/?q={keyword}"@.subrange(8, 18) =~= "duckduckgo"@); }
    assert(has_at("https://duckduckgo.com/?q={keyword}"@, "https://"@, 0)) by { assert("https://duckduckgo.com/?q={keyword}"@.subrange(0, 8) =~= "https://"@); }
    assert(has_at("https://duckduckgo.com/?q={keyword}"@, "{keyword}"@, 26)) by { assert("https://duckduckgo.com/?q={keyword}"@.subrange(26, 35) =~= "{keyword}"@); }
    assert(has_at("https://search.yahoo.com/search?p={keyword}"@, "yahoo"@, 15)) by { assert("https://search.yahoo.com/search?p={keyword}"@.subrange(15, 20) =~= "yahoo"@); }
    assert(has_at("https://search.yahoo.com/search?p={keyword}"@, "https://"@, 0)) by { assert("https://search.yahoo.com/search?p={keyword}"@.subrange(0, 8) =~= "https://"@); }
    assert(has_at("https://search.yahoo.com/search?p={keyword}"@, "{keyword}"@, 34)) by { assert("https://search.yahoo.com/search?p={keyword}"@.subrange(34, 43) =~= "{keyword}"@); }
    assert(has_at("https://www.baidu.com/s?wd={keyword}"@, "baidu"@, 12)) by { assert("https://www.baidu.com/s?wd={keyword}"@.subrange(12, 17) =~= "baidu"@); }
    assert(has_at("https://www.baidu.com/s?wd={keyword}"@, "https://"@, 0)) by { assert("https://www.baidu.com/s?wd={keyword}"@.subrange(0, 8) =~= "https://"@); }
    assert(has_at("https://www.baidu.com/s?wd={keyword}"@, "{keyword}"@, 27)) by { assert("https://www.baidu.com/s?wd={keyword}"@.subrange(27, 36) =~= "{keyword}"@); }
    assert(has_at("https://yandex.com/search/?text={keyword}"@, "yandex"@, 8)) by { assert("https://yandex.com/search/?text={keyword}"@.subrange(8, 14) =~= "yandex"@); }
    assert(has_at("https://yandex.com/search/?text={keyword}"@, "https://"@, 0)) by { assert("https://yandex.com/search/?text={keyword}"@.subrange(0, 8) =~= "https://"@); }
    assert(has_at("https://yandex.com/search/?text={keyword}"@, "{keyword}"@, 32)) by { assert("https://yandex.com/search/?text={keyword}"@.subrange(32, 41) =~= "{keyword}"@); }
    assert(has_at("https://www.ask.com/web?q={keyword}"@, "ask"@, 12)) by { assert("https://www.ask.com/web?q={keyword}"@.subrange(12, 15) =~= "ask"@); }
    assert(has_at("https://www.ask.com/web?q={keyword}"@, "https://"@, 0)) by { assert("https://www.ask.com/web?q={keyword}"@.subrange(0, 8) =~= "https://"@); }
    assert(has_at("https://www.ask.com/web?q={keyword}"@, "{keyword}"@, 26)) by { assert("https://www.ask.com/web?q={keyword}"@.subrange(26, 35) =~= "{keyword}"@); }
    assert(has_at("https://www.ecosia.org/search?q={keyword}"@, "ecosia"@, 12)) by { assert("https://www.ecosia.org/search?q={keyword}"@.subrange(12, 18) =~= "ecosia"@); }
    assert(has_at("https://www.ecosia.org/search?q={keyword}"@, "https://"@, 0)) by { assert("https://www.ecosia.org/search?q={keyword}"@.subrange(0, 8) =~= "https://"@); }
    assert(has_at("https://www.ecosia.org/search?q={keyword}"@, "{keyword}"@, 32)) by { assert("https://www.ecosia.org/search?q={keyword}"@.subrange(32, 41) =~= "{keyword}"@); }
    assert(has_at("https://www.qwant.com/?q={keyword}"@, "qwant"@, 12)) by { assert("https://www.qwant.com/?q={keyword}"@.subrange(12, 17) =~= "qwant"@); }
    assert(has_at("https://www.qwant.com/?q={keyword}"@, "https://"@, 0)) by { assert("https://www.qwant.com/?q={keyword}"@.subrange(0, 8) =~= "https://"@); }
    assert(has_at("https://www.qwant.com/?q={keyword}"@, "{keyword}"@, 25)) by { assert("https://www.qwant.com/?q={keyword}"@.subrange(25, 34) =~= "{keyword}"@); }
    assert(has_at("https://www.startpage.com/sp/search?q={keyword}"@, "startpage"@, 12)) by { assert("https://www.startpage.com/sp/search?q={keyword}"@.subrange(12, 21) =~= "startpage"@); }
    assert(has_at("https://www.startpage.com/sp/search?q={keyword}"@, "https://"@, 0)) by { assert("https://www.startpage.com/sp/search?q={keyword}"@.subrange(0, 8) =~= "https://"@); }
    assert(has_at("https://www.startpage.com/sp/search?q={keyword}"@, "{keyword}"@, 38)) by { assert("https://www.startpage.com/sp/search?q={keyword}"@.subrange(38, 47) =~= "{keyword}"@); }
}

pub fn engine_url_template(engine: &str) -> (r: String)
    ensures
        r@ == engine_template(engine@),
{
    let t = if str_eq(engine, "google") {
        "https://www.google.com/search?q={keyword}"
    } else if str_eq(engine, "bing") {
        "https://www.bing.com/search?q={keyword}"
    } else if str_eq(engine, "duckduckgo") {
        "https://duckduckgo.com/?q={keyword}"
    } else if str_eq(engine, "yahoo") {
        "https://search.yahoo.com/search?p={keyword}"
    } else if str_eq(engine, "baidu") {
        "https://www.baidu.com/s?wd={keyword}"
    } else if str_eq(engine, "yandex") {
        "https://yandex.com/search/?text={keyword}"
    } else if str_eq(engine, "ask") {
        "https://www.ask.com/web?q={keyword}"
    } else if str_eq(engine, "ecosia") {
        "https://www.ecosia.org/search?q={keyword}"
    } else if str_eq(engine, "qwant") {
        "https://www.qwant.com/?q={keyword}"
    } else if str_eq(engine, "startpage") {
        "https://www.startpage.com/sp/search?q={keyword}"
    } else if str_eq(engine, "plain") {
        "{keyword}"
    } else {
        engine
    };
    String::from_str(t)
}

/// The browser command line that searches `query` with `engine`, for the
/// default browser's command `browser`.
pub fn websearch_line(engine: &str, query: &str, browser: &str) -> (r: String)
    ensures
        r@ == browser_line(browser@, search_url(engine@, query@)),
{
    proof {
        reveal_strlit("{keyword}");
        reveal_strlit(" ");
        reveal_strlit("%u");
    }
    let template = engine_url_template(engine);
    let q = replace_str(query, " ", "+");
    let url = replace_str(template.as_str(), "{keyword}", q.as_str());
    if contains_str(browser, "%u") {
        replace_str(browser, "%u", url.as_str())
    } else {
        let mut line = String::from_str(browser);
        line.append(" ");
        line.append(url.as_str());
        line
    }
}

/// The shell lines that a web search for `query` with `engine` runs through
/// the default browser's command `browser`.
pub fn websearch(
    engine: &str,
    query: &str,
    browser: &str,
    prefix: Option<&str>,
    flags: Option<&str>,
) -> (r: Vec<String>)
    ensures
        views(r@) == command_lines(
            browser_line(browser@, search_url(engine@, query@)),
            Seq::empty(),
            opt_str(prefix),
            opt_str(flags),
        ),
{
    proof {
        reveal_strlit("");
        assert(""@ =~= Seq::<char>::empty());
    }
    let line = websearch_line(engine, query, browser);
    command_launch(line.as_str(), "", prefix, flags)
}

/// The words of `s` between runs of whitespace.
pub open spec fn split_ws(s: Seq<char>) -> Seq<Seq<char>>
    decreases s.len(),
{
    if s.len() == 0 {
        seq![Seq::<char>::empty()]
    } else {
        let rest = split_ws(s.drop_first());
        if is_ws(s[0]) {
            seq![Seq::<char>::empty()] + rest
        } else {
            rest.update(0, seq![s[0]] + rest[0])
        }
    }
}

/// The non-empty pieces of `ps`, in order.
pub open spec fn non_empty(ps: Seq<Seq<char>>) -> Seq<Seq<char>>
    decreases ps.len(),
{
    if ps.len() == 0 {
        Seq::empty()
    } else if ps.last().len() == 0 {
        non_empty(ps.drop_last())
    } else {
        non_empty(ps.drop_last()).push(ps.last())
    }
}

/// What `str::split_whitespace` yields.
pub open spec fn words(s: Seq<char>) -> Seq<Seq<char>> {
    non_empty(split_ws(s))
}

proof fn lemma_split_ws_nonempty(s: Seq<char>)
    ensures
        split_ws(s).len() >= 1,
    decreases s.len(),
{
    if s.len() > 0 {
        lemma_split_ws_nonempty(s.drop_first());
    }
}

proof fn lemma_split_ws_step(s: Seq<char>, i: int, cur: Seq<char>)
    requires
        0 <= i < s.len(),
    ensures
        is_ws(s[i]) ==> join_first(cur, split_ws(s.skip(i))) == seq![cur] + split_ws(
            s.skip(i + 1),
        ),
        !is_ws(s[i]) ==> join_first(cur, split_ws(s.skip(i))) == join_first(
            cur.push(s[i]),
            split_ws(s.skip(i + 1)),
        ),
{
    let t = s.skip(i);
    assert(t.drop_first() =~= s.skip(i + 1));
    lemma_split_ws_nonempty(s.skip(i + 1));
    if is_ws(s[i]) {
        assert(join_first(cur, split_ws(t)) =~= seq![cur] + split_ws(s.skip(i + 1)));
    } else {
        let rest = split_ws(s.skip(i + 1));
        assert(cur + (seq![s[i]] + rest[0]) =~= cur.push(s[i]) + rest[0]);
        assert(join_first(cur, split_ws(t)) =~= join_first(cur.push(s[i]), rest));
    }
}

proof fn lemma_non_empty_push(ps: Seq<Seq<char>>, p: Seq<char>)
    ensures
        non_empty(ps.push(p)) == if p.len() == 0 {
            non_empty(ps)
        } else {
            non_empty(ps).push(p)
        },
{
    assert(ps.push(p).drop_last() =~= ps);
}

proof fn lemma_non_empty_append(a: Seq<Seq<char>>, b: Seq<Seq<char>>)
    ensures
        non_empty(a + b) == non_empty(a) + non_empty(b),
    decreases b.len(),
{
    if b.len() == 0 {
        assert(a + b =~= a);
        assert(non_empty(a) + non_empty(b) =~= non_empty(a));
    } else {
        lemma_non_empty_append(a, b.drop_last());
        assert((a + b).drop_last() =~= a + b.drop_last());
        assert((a + b).last() == b.last());
        if b.last().len() == 0 {
        } else {
            assert(non_empty(a) + non_empty(b.drop_last()).push(b.last()) =~= (non_empty(a)
                + non_empty(b.drop_last())).push(b.last()));
        }
    }
}

/// The words of `s`, as `str::split_whitespace` gives them.
pub fn split_whitespace(s: &[char]) -> (r: Vec<Vec<char>>)
    ensures
        r@.len() == words(s@).len(),
        forall|k: int| 0 <= k < r@.len() ==> #[trigger] r@[k]@ == words(s@)[k],
{
    let mut done: Vec<Vec<char>> = Vec::new();
    let mut cur: Vec<char> = Vec::new();
    let mut i: usize = 0;
    let ghost whole = split_ws(s@);
    proof {
        lemma_split_ws_nonempty(s@);
        assert(s@.skip(0) =~= s@);
        assert(join_first(Seq::<char>::empty(), whole) =~= whole);
        lemma_non_empty_append(Seq::empty(), whole);
        assert(Seq::<Seq<char>>::empty() + whole =~= whole);
        assert(non_empty(Seq::<Seq<char>>::empty()) =~= Seq::<Seq<char>>::empty());
    }
    while i < s.len()
        invariant
            i <= s@.len(),
            whole == split_ws(s@),
            non_empty(whole) == done@.map_values(|v: Vec<char>| v@) + non_empty(
                join_first(cur@, split_ws(s@.skip(i as int))),
            ),
        decreases s@.len() - i,
    {
        proof {
            lemma_split_ws_step(s@, i as int, cur@);
        }
        if char_is_ws(s[i]) {
            let ghost old_done = done@;
            let ghost old_cur = cur@;
            let ghost rest = split_ws(s@.skip(i + 1));
            proof {
                lemma_split_ws_nonempty(s@.skip(i + 1));
                lemma_non_empty_append(seq![old_cur], rest);
                assert(join_first(Seq::<char>::empty(), rest) =~= rest);
                lemma_non_empty_push(Seq::empty(), old_cur);
                assert(Seq::<Seq<char>>::empty().push(old_cur) =~= seq![old_cur]);
            }
            if cur.len() > 0 {
                done.push(cur);
                proof {
                    assert(done@.map_values(|v: Vec<char>| v@) =~= old_done.map_values(
                        |v: Vec<char>| v@,
                    ).push(old_cur));
                    assert(non_empty(Seq::<Seq<char>>::empty()) =~= Seq::<Seq<char>>::empty());
                }
            } else {
                assert(non_empty(Seq::<Seq<char>>::empty()) =~= Seq::<Seq<char>>::empty());
            }
            cur = Vec::new();
        } else {
            cur.push(s[i]);
        }
        i = i + 1;
    }
    proof {
        assert(s@.skip(i as int) =~= Seq::<char>::empty());
        assert(join_first(cur@, split_ws(Seq::<char>::empty())) =~= seq![cur@]);
        lemma_non_empty_push(Seq::empty(), cur@);
        assert(Seq::<Seq<char>>::empty().push(cur@) =~= seq![cur@]);
        assert(non_empty(Seq::<Seq<char>>::empty()) =~= Seq::<Seq<char>>::empty());
    }
    let ghost old_done = done@;
    if cur.len() > 0 {
        done.push(cur);
        assert(done@.map_values(|v: Vec<char>| v@) =~= old_done.map_values(|v: Vec<char>| v@).push(
            cur@,
        ));
    }
    proof {
        assert(done@.map_values(|v: Vec<char>| v@) =~= non_empty(whole));
        assert forall|k: int| 0 <= k < done@.len() implies #[trigger] done@[k]@ == non_empty(
            whole,
        )[k] by {
            assert(done@.map_values(|v: Vec<char>| v@)[k] == done@[k]@);
        }
    }
    done
}

/// The pieces joined with single spaces.
pub open spec fn join_spaces(ps: Seq<Seq<char>>) -> Seq<char>
    decreases ps.len(),
{
    if ps.len() == 0 {
        Seq::empty()
    } else if ps.len() == 1 {
        ps[0]
    } else {
        join_spaces(ps.drop_last()) + " "@ + ps.last()
    }
}

/// The words of the application line: prefix, terminal, command and flags
/// joined, double quotes removed, and words that start with `%` (field codes
/// of desktop entries) left out.
pub open spec fn app_words(parts: Seq<Seq<char>>) -> Seq<Seq<char>> {
    words(trim(replace(join_spaces(parts), "\""@, Seq::empty()))).filter(
        |w: Seq<char>| !starts_with(w, "%"@),
    )
}

/// The parts of the application line, in order.
pub open spec fn app_parts(
    cmd: Seq<char>,
    terminal: bool,
    prefix: Option<Seq<char>>,
    terminal_cmd: Seq<char>,
    flags: Option<Seq<char>>,
) -> Seq<Seq<char>> {
    let a = match prefix {
        Some(p) => seq![p],
        None => Seq::empty(),
    };
    let b = if terminal {
        a.push(terminal_cmd)
    } else {
        a
    };
    let c = b.push(cmd);
    match flags {
        Some(f) => c.push(f),
        None => c,
    }
}

fn push_part(parts: &mut Vec<String>, s: &str)
    ensures
        views(final(parts)@) == views(old(parts)@).push(s@),
{
    parts.push(String::from_str(s));
    assert(views(parts@) =~= views(old(parts)@).push(s@));
}

fn join_with_spaces(parts: &Vec<String>) -> (r: String)
    ensures
        r@ == join_spaces(views(parts@)),
{
    let mut r = String::new();
    let mut i: usize = 0;
    proof {
        reveal_strlit(" ");
    }
    while i < parts.len()
        invariant
            i <= parts@.len(),
            r@ == join_spaces(views(parts@).take(i as int)),
        decreases parts@.len() - i,
    {
        let ghost t = views(parts@).take(i + 1);
        assert(t.drop_last() =~= views(parts@).take(i as int));
        if i > 0 {
            r.append(" ");
        }
        r.append(parts[i].as_str());
        proof {
            if i == 0 {
                assert(r@ =~= t[0]);
            } else {
                assert(r@ =~= join_spaces(t.drop_last()) + " "@ + t.last());
            }
        }
        i = i + 1;
    }
    assert(views(parts@).take(parts@.len() as int) =~= views(parts@));
    r
}

/// Program and arguments that launching the desktop application `exec`
/// starts, or `None` where nothing is left to start. With `terminal`, the
/// program runs in `terminal_cmd`.
pub fn applaunch(
    exec: &str,
    terminal: bool,
    prefix: Option<&str>,
    terminal_cmd: &str,
    flags: Option<&str>,
) -> (r: Option<Vec<String>>)
    ensures
        match r {
            Some(argv) => argv@.len() > 0 && views(argv@) == app_words(
                app_parts(exec@, terminal, opt_str(prefix), terminal_cmd@, opt_str(flags)),
            ),
            None => app_words(
                app_parts(exec@, terminal, opt_str(prefix), terminal_cmd@, opt_str(flags)),
            ).len() == 0,
        },
{
    let mut parts: Vec<String> = Vec::new();
    match prefix {
        Some(p) => push_part(&mut parts, p),
        None => {},
    }
    if terminal {
        push_part(&mut parts, terminal_cmd);
    }
    push_part(&mut parts, exec);
    match flags {
        Some(f) => push_part(&mut parts, f),
        None => {},
    }
    proof {
        let a = match opt_str(prefix) {
            Some(p) => seq![p],
            None => Seq::<Seq<char>>::empty(),
        };
        assert(views(parts@) =~= app_parts(
            exec@,
            terminal,
            opt_str(prefix),
            terminal_cmd@,
            opt_str(flags),
        ));
        reveal_strlit("\"");
        reveal_strlit("");
        assert(""@ =~= Seq::<char>::empty());
    }
    let joined = join_with_spaces(&parts);
    let unquoted = replace_str(joined.as_str(), "\"", "");
    let jc = chars_of(unquoted.as_str());
    let trimmed = trim_chars(&jc);
    let ws = split_whitespace(&trimmed);
    let ghost all = words(trim(unquoted@));
    let mut argv: Vec<String> = Vec::new();
    let pct: Vec<char> = vec!['%'];
    proof {
        reveal_strlit("%");
        assert(pct@ =~= "%"@);
    }
    let ghost keep = |w: Seq<char>| !starts_with(w, "%"@);
    let mut i: usize = 0;
    while i < ws.len()
        invariant
            i <= ws@.len() == all.len(),
            forall|k: int| 0 <= k < ws@.len() ==> #[trigger] ws@[k]@ == all[k],
            pct@ == "%"@,
            keep == (|w: Seq<char>| !starts_with(w, "%"@)),
            views(argv@) == all.take(i as int).filter(keep),
        decreases ws@.len() - i,
    {
        let ghost old_argv = argv@;
        proof {
            assert(all.take(i + 1).drop_last() =~= all.take(i as int));
            reveal(Seq::filter);
        }
        if !starts_with_chars(ws[i].as_slice(), &pct) {
            argv.push(string_of(ws[i].as_slice()));
            assert(views(argv@) =~= views(old_argv).push(ws@[i as int]@));
        }
        i = i + 1;
    }
    assert(all.take(all.len() as int) =~= all);
    if argv.len() == 0 {
        None
    } else {
        Some(argv)
    }
}

/// Program and arguments that joining the meeting at `meeting_url` starts:
/// the words of `teams_command` with `{meeting_url}` filled in, arguments
/// that start with `%` left out. An empty command is an error.
pub fn teamslaunch(teams_command: &str, meeting_url: &str) -> (r: Result<Vec<String>, SherlockError>)
    ensures
        match r {
            Ok(argv) => {
                let ws = words(replace(teams_command@, "{meeting_url}"@, meeting_url@));
                &&& ws.len() > 0
                &&& views(argv@) == seq![ws[0]] + ws.drop_first().filter(
                    |w: Seq<char>| !starts_with(w, "%"@),
                )
            },
            Err(e) => words(replace(teams_command@, "{meeting_url}"@, meeting_url@)).len() == 0
                && e.error is CommandExecutionError,
        },
{
    proof {
        reveal_strlit("{meeting_url}");
        reveal_strlit("%");
    }
    let filled = replace_str(teams_command, "{meeting_url}", meeting_url);
    let fc = chars_of(filled.as_str());
    let ws = split_whitespace(&fc);
    let ghost all = words(filled@);
    if ws.len() == 0 {
        return Err(
            SherlockError {
                error: SherlockErrorType::CommandExecutionError(String::from_str("Teams Start")),
                traceback: String::from_str("Command is empty."),
            },
        );
    }
    let pct: Vec<char> = vec!['%'];
    assert(pct@ =~= "%"@);
    let ghost keep = |w: Seq<char>| !starts_with(w, "%"@);
    let ghost rest = all.drop_first();
    let mut argv: Vec<String> = Vec::new();
    argv.push(string_of(ws[0].as_slice()));
    assert(views(argv@) =~= seq![all[0]] + rest.take(0).filter(keep)) by {
        reveal(Seq::filter);
        assert(rest.take(0) =~= Seq::<Seq<char>>::empty());
    }
    let mut i: usize = 1;
    while i < ws.len()
        invariant
            1 <= i <= ws@.len() == all.len(),
            forall|k: int| 0 <= k < ws@.len() ==> #[trigger] ws@[k]@ == all[k],
            pct@ == "%"@,
            rest == all.drop_first(),
            keep == (|w: Seq<char>| !starts_with(w, "%"@)),
            views(argv@) == seq![all[0]] + rest.take(i - 1).filter(keep),
        decreases ws@.len() - i,
    {
        let ghost old_argv = argv@;
        proof {
            assert(rest.take(i as int).drop_last() =~= rest.take(i - 1));
            assert(rest.take(i as int).last() == all[i as int]);
            reveal(Seq::filter);
        }
        if !starts_with_chars(ws[i].as_slice(), &pct) {
            argv.push(string_of(ws[i].as_slice()));
            assert(views(argv@) =~= views(old_argv).push(ws@[i as int]@));
        }
        i = i + 1;
    }
    assert(rest.take(rest.len() as int) =~= rest);
    Ok(argv)
}

} // verus!
