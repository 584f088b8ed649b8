//! The bulk-text tile: a script run with the search text, whose JSON answer
//! fills the tile.
use vstd::prelude::*;
use crate::desktop::ApplicationAction;
use crate::paths::{join, path_join};
use crate::text::{
    chars_of, contains, contains_str, replace, replace_str, split, split_string, starts_with,
    starts_with_str, string_of, trim, trim_str,
};

verus! {

/// A script and the arguments it is run with; `{keyword}` in the arguments
/// stands for the search text.
pub struct BulkTextLauncher {
    pub icon: String,
    pub executable: String,
    pub args: String,
}

/// What the script answers.
pub struct AsyncCommandResponse {
    pub title: Option<String>,
    pub content: Option<String>,
    pub next_content: Option<String>,
    pub actions: Option<Vec<ApplicationAction>>,
}

impl AsyncCommandResponse {
    /// An empty answer.
    pub fn new() -> (r: Self)
        ensures
            r.title is None,
            r.content is None,
            r.next_content is None,
            r.actions is None,
    {
        AsyncCommandResponse { title: None, content: None, next_content: None, actions: None }
    }

    /// The parts of the answer, in field order.
    pub fn split_params(self) -> (r: (
        Option<String>,
        Option<String>,
        Option<String>,
        Option<Vec<ApplicationAction>>,
    ))
        ensures
            r.0 == self.title,
            r.1 == self.content,
            r.2 == self.next_content,
            r.3 == self.actions,
    {
        (self.title, self.content, self.next_content, self.actions)
    }
}

/// The script's path: a leading `~/` is dropped and the rest is taken under
/// the home directory, where an absolute path stays as it is.
pub open spec fn script_path(exec: Seq<char>, home: Seq<char>) -> Seq<char> {
    let relative = if starts_with(exec, "~/"@) {
        exec.skip(2)
    } else {
        exec
    };
    path_join(home, relative)
}

/// The command for a search: nothing where the arguments want the search
/// text and it is blank or there is no home directory; else the script's
/// path and the arguments, with the search text put in, cut at each space.
pub open spec fn script_command(
    l: BulkTextLauncher,
    keyword: Seq<char>,
    home: Option<Seq<char>>,
) -> Option<(Seq<char>, Seq<Seq<char>>)> {
    if contains(l.args@, "{keyword}"@) && trim(keyword).len() == 0 {
        None
    } else {
        match home {
            None => None,
            Some(h) => Some(
                (
                    script_path(l.executable@, h),
                    split(replace(l.args@, "{keyword}"@, keyword), ' '),
                ),
            ),
        }
    }
}

pub open spec fn string_views(v: Seq<String>) -> Seq<Seq<char>> {
    v.map_values(|s: String| s@)
}

/// How running the script went.
pub enum ScriptOutcome {
    /// It could not be started; the error's text.
    SpawnFailed(String),
    /// It ended with success; its output read as an answer, where it was one.
    Succeeded(Option<AsyncCommandResponse>),
    /// It ended with failure; its exit status as text.
    Failed(String),
    /// Waiting for it failed.
    WaitFailed,
    /// It ran longer than allowed.
    TimedOut,
}

pub open spec fn titled(r: AsyncCommandResponse, title: Seq<char>, content: Seq<char>) -> bool {
    &&& r.title matches Some(t) && t@ == title
    &&& r.content matches Some(c) && c@ == content
    &&& r.next_content is None
    &&& r.actions is None
}

impl BulkTextLauncher {
    /// The script to run for a search, and its arguments.
    pub fn command(&self, keyword: &str, home: Option<&str>) -> (r: Option<(String, Vec<String>)>)
        ensures
            match r {
                Some((p, a)) => script_command(
                    *self,
                    keyword@,
                    match home {
                        Some(h) => Some(h@),
                        None => None,
                    },
                ) == Some((p@, string_views(a@))),
                None => script_command(
                    *self,
                    keyword@,
                    match home {
                        Some(h) => Some(h@),
                        None => None,
                    },
                ) is None,
            },
    {
        proof {
            reveal_strlit("{keyword}");
            reveal_strlit("~/");
        }
        if contains_str(self.args.as_str(), "{keyword}") && trim_str(keyword).as_str().unicode_len()
            == 0 {
            return None;
        }
        let a = replace_str(self.args.as_str(), "{keyword}", keyword);
        let args = split_string(a.as_str(), ' ');
        let h = match home {
            Some(h) => h,
            None => return None,
        };
        let relative: String = if starts_with_str(self.executable.as_str(), "~/") {
            let v = chars_of(self.executable.as_str());
            let rest = vstd::slice::slice_subrange(v.as_slice(), 2, v.len());
            assert(rest@ =~= self.executable@.skip(2));
            string_of(rest)
        } else {
            self.executable.clone()
        };
        let path = join(h, relative.as_str());
        assert(string_views(args@) =~= split(replace(self.args@, "{keyword}"@, keyword@), ' '));
        Some((path, args))
    }

    /// The answer shown for how the script ran.
    pub fn response(outcome: ScriptOutcome) -> (r: AsyncCommandResponse)
        ensures
            match outcome {
                ScriptOutcome::SpawnFailed(e) => titled(
                    r,
                    "Failed to execute script."@,
                    "Error: "@ + e@,
                ),
                ScriptOutcome::Succeeded(Some(a)) => r == a,
                ScriptOutcome::Succeeded(None) => r.title is None && r.content is None
                    && r.next_content is None && r.actions is None,
                ScriptOutcome::Failed(status) => titled(
                    r,
                    "Script returned an error."@,
                    "Status: "@ + status@,
                ),
                ScriptOutcome::WaitFailed => titled(
                    r,
                    "Failed to execute script."@,
                    "Error occurred while running the process: {:?}"@,
                ),
                ScriptOutcome::TimedOut => titled(
                    r,
                    "Failed to execute script."@,
                    "Timeout exceeded."@,
                ),
            },
    {
        match outcome {
            ScriptOutcome::SpawnFailed(e) => {
                let mut c = String::from_str("Error: ");
                c.append(e.as_str());
                let mut r = AsyncCommandResponse::new();
                r.title = Some(String::from_str("Failed to execute script."));
                r.content = Some(c);
                r
            },
            ScriptOutcome::Succeeded(Some(a)) => a,
            ScriptOutcome::Succeeded(None) => AsyncCommandResponse::new(),
            ScriptOutcome::Failed(status) => {
                let mut c = String::from_str("Status: ");
                c.append(status.as_str());
                let mut r = AsyncCommandResponse::new();
                r.title = Some(String::from_str("Script returned an error."));
                r.content = Some(c);
                r
            },
            ScriptOutcome::WaitFailed => {
                let mut r = AsyncCommandResponse::new();
                r.title = Some(String::from_str("Failed to execute script."));
                r.content = Some(String::from_str("Error occurred while running the process: {:?}"));
                r
            },
            ScriptOutcome::TimedOut => {
                let mut r = AsyncCommandResponse::new();
                r.title = Some(String::from_str("Failed to execute script."));
                r.content = Some(String::from_str("Timeout exceeded."));
                r
            },
        }
    }
}

} // verus!
