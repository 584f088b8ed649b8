//! Requests that other processes send to a running launcher, and how they
//! wait in a queue until the window can carry them out.
use vstd::prelude::*;
use crate::error::SherlockError;
use crate::text::str_eq;

verus! {

/// The views the window can switch to.
pub enum SherlockModes {
    Search,
    Error,
    DisplayRaw(String),
    Pipe(String),
    Input(bool),
}

pub open spec fn bool_text(b: bool) -> Seq<char> {
    if b {
        "true"@
    } else {
        "false"@
    }
}

fn bool_string(b: bool) -> (r: String)
    ensures
        r@ == bool_text(b),
{
    if b {
        String::from_str("true")
    } else {
        String::from_str("false")
    }
}

/// How a mode is written in the log.
pub open spec fn mode_text(m: SherlockModes) -> Seq<char> {
    match m {
        SherlockModes::Search => "SearchView"@,
        SherlockModes::Error => "ErrorView"@,
        SherlockModes::Pipe(_) => "PipeView"@,
        SherlockModes::DisplayRaw(_) => "RawView"@,
        SherlockModes::Input(obf) => "Input:Obfuscated?"@ + bool_text(obf),
    }
}

impl SherlockModes {
    pub fn display(&self) -> (r: String)
        ensures
            r@ == mode_text(*self),
    {
        match self {
            SherlockModes::Search => String::from_str("SearchView"),
            SherlockModes::Error => String::from_str("ErrorView"),
            SherlockModes::Pipe(_) => String::from_str("PipeView"),
            SherlockModes::DisplayRaw(_) => String::from_str("RawView"),
            SherlockModes::Input(obf) => {
                let mut s = String::from_str("Input:Obfuscated?");
                s.append(bool_string(*obf).as_str());
                s
            },
        }
    }
}

/// A request to the running launcher.
pub enum ApiCall {
    InputOnly,
    Obfuscate(bool),
    Socket(Option<String>),
    Show,
    Clear,
    SherlockError(SherlockError),
    ClearAwaiting,
    Pipe(String),
    DisplayRaw(String),
    SwitchMode(SherlockModes),
}

/// How `{:?}` writes an optional string.
pub uninterp spec fn option_debug(o: Option<Seq<char>>) -> Seq<char>;

/// Writes an optional string with `{:?}`.
///
/// Trusted: the text is the standard library's `Debug` output, a function
/// of the value alone; for `None` it is `None`. Its escaping of characters
/// inside `Some("..")` is not restated.
#[verifier::external_body]
fn debug_option(o: &Option<String>) -> (r: String)
    ensures
        r@ == option_debug(
            match o {
                Some(s) => Some(s@),
                None => None,
            },
        ),
        o is None ==> r@ == "None"@,
{
    format!("{:?}", o)
}

/// How a request is written in the log. An error is written by its
/// traceback.
pub open spec fn call_text(c: ApiCall) -> Seq<char> {
    match c {
        ApiCall::InputOnly => "setting.InputOnly"@,
        ApiCall::Obfuscate(v) => "setting.Obfuscate:"@ + bool_text(v),
        ApiCall::Show => "action.Show"@,
        ApiCall::Socket(s) => "action.Socket:"@ + option_debug(
            match s {
                Some(x) => Some(x@),
                None => None,
            },
        ),
        ApiCall::Clear => "action.Clear"@,
        ApiCall::SherlockError(e) => "action.InsertError:"@ + e.traceback@,
        ApiCall::ClearAwaiting => "action.ClearAwaiting"@,
        ApiCall::Pipe(p) => "action.ProcessPipe:"@ + p@,
        ApiCall::DisplayRaw(p) => "action.DisplayRaw:"@ + p@,
        ApiCall::SwitchMode(m) => "action.SwitchMode:"@ + mode_text(m),
    }
}

fn prefixed(prefix: &str, rest: &str) -> (r: String)
    ensures
        r@ == prefix@ + rest@,
{
    let mut s = String::from_str(prefix);
    s.append(rest);
    s
}

impl ApiCall {
    pub fn display(&self) -> (r: String)
        ensures
            r@ == call_text(*self),
    {
        match self {
            ApiCall::InputOnly => String::from_str("setting.InputOnly"),
            ApiCall::Obfuscate(v) => prefixed("setting.Obfuscate:", bool_string(*v).as_str()),
            ApiCall::Show => String::from_str("action.Show"),
            ApiCall::Socket(s) => prefixed("action.Socket:", debug_option(s).as_str()),
            ApiCall::Clear => String::from_str("action.Clear"),
            ApiCall::SherlockError(e) => prefixed("action.InsertError:", e.traceback.as_str()),
            ApiCall::ClearAwaiting => String::from_str("action.ClearAwaiting"),
            ApiCall::Pipe(p) => prefixed("action.ProcessPipe:", p.as_str()),
            ApiCall::DisplayRaw(p) => prefixed("action.DisplayRaw:", p.as_str()),
            ApiCall::SwitchMode(m) => prefixed("action.SwitchMode:", m.display().as_str()),
        }
    }
}

/// The requests of `s` that were not carried out, in their order.
pub open spec fn unhandled(s: Seq<ApiCall>, handled: Seq<bool>) -> Seq<ApiCall>
    decreases s.len(),
{
    if s.len() == 0 {
        Seq::empty()
    } else {
        let r = unhandled(s.drop_last(), handled.drop_last());
        if handled.last() {
            r
        } else {
            r.push(s.last())
        }
    }
}

/// Requests waiting until they can be carried out, in arrival order.
pub struct RequestQueue {
    pub queue: Vec<ApiCall>,
}

impl RequestQueue {
    pub fn new() -> (r: Self)
        ensures
            r.queue@.len() == 0,
    {
        RequestQueue { queue: Vec::new() }
    }

    /// A request joins the end of the queue.
    pub fn await_request(&mut self, request: ApiCall)
        ensures
            final(self).queue@ == old(self).queue@.push(request),
    {
        self.queue.push(request);
    }

    /// After each waiting request was tried (`handled[i]` tells whether the
    /// one at `i` was carried out), only those not carried out stay, in
    /// their order.
    pub fn flush(&mut self, handled: &Vec<bool>)
        requires
            handled@.len() == old(self).queue@.len(),
        ensures
            final(self).queue@ == unhandled(old(self).queue@, handled@),
    {
        let mut kept: Vec<ApiCall> = Vec::new();
        let mut rest: Vec<ApiCall> = Vec::new();
        std::mem::swap(&mut rest, &mut self.queue);
        let ghost start = rest@;
        let mut i: usize = 0;
        let n = rest.len();
        while i < n
            invariant
                n == start.len() == handled@.len(),
                i <= n,
                rest@ == start.skip(i as int),
                kept@ == unhandled(start.take(i as int), handled@.take(i as int)),
            decreases n - i,
        {
            let item = rest.remove(0);
            proof {
                assert(start.take(i + 1).drop_last() =~= start.take(i as int));
                assert(handled@.take(i + 1).drop_last() =~= handled@.take(i as int));
                assert(item == start[i as int]);
            }
            if !handled[i] {
                kept.push(item);
            }
            i = i + 1;
            assert(rest@ =~= start.skip(i as int));
        }
        assert(start.take(n as int) =~= start);
        assert(handled@.take(n as int) =~= handled@);
        self.queue = kept;
    }
}

/// The action argument that switches from page `current` to `page`.
pub fn page_transition(current: &str, page: &str) -> (r: String)
    ensures
        r@ == current@ + "->"@ + page@,
{
    let mut s = String::from_str(current);
    s.append("->");
    s.append(page);
    s
}

/// Pages that stay when switching to `page`: the search page, the error
/// page and `page` itself.
pub open spec fn page_stays(name: Seq<char>, page: Seq<char>) -> bool {
    name == "search-page"@ || name == "error-page"@ || name == page
}

/// The pages removed when switching to `page`, in the stack's order.
pub open spec fn removed_pages(all: Seq<Seq<char>>, page: Seq<char>) -> Seq<Seq<char>> {
    all.filter(|n: Seq<char>| !page_stays(n, page))
}

pub fn pages_to_remove(all: &Vec<String>, page: &str) -> (r: Vec<String>)
    ensures
        r@.map_values(|s: String| s@) == removed_pages(all@.map_values(|s: String| s@), page@),
{
    let ghost names = all@.map_values(|s: String| s@);
    let ghost keep = |n: Seq<char>| !page_stays(n, page@);
    let mut out: Vec<String> = Vec::new();
    let mut i: usize = 0;
    while i < all.len()
        invariant
            i <= all@.len(),
            names == all@.map_values(|s: String| s@),
            keep == (|n: Seq<char>| !page_stays(n, page@)),
            out@.map_values(|s: String| s@) == names.take(i as int).filter(keep),
        decreases all@.len() - i,
    {
        proof {
            assert(names.take(i + 1).drop_last() =~= names.take(i as int));
            reveal(Seq::filter);
        }
        let name = all[i].as_str();
        let stays = str_eq(name, "search-page") || str_eq(name, "error-page") || str_eq(name, page);
        let ghost before = out@;
        if !stays {
            out.push(all[i].clone());
            assert(out@.map_values(|s: String| s@) =~= before.map_values(|s: String| s@).push(
                all@[i as int]@,
            ));
        }
        i = i + 1;
    }
    assert(names.take(all@.len() as int) =~= names);
    out
}

/// The request made of piped elements: shown raw where the settings ask
/// for it, else as a list.
pub fn pipe_request(elements: String, display_raw: bool) -> (r: ApiCall)
    ensures
        if display_raw {
            r matches ApiCall::DisplayRaw(e) && e@ == elements@
        } else {
            r matches ApiCall::Pipe(e) && e@ == elements@
        },
{
    if display_raw {
        ApiCall::DisplayRaw(elements)
    } else {
        ApiCall::Pipe(elements)
    }
}

/// The server side of the socket.
pub struct SherlockServer;

/// What was piped in, as read by a new window.
pub struct PipedData {
    pub settings: Option<Vec<ApiCall>>,
    pub elements: Option<String>,
}

/// What `serde_json` makes of piped bytes: `None` where they are not JSON,
/// `Some(None)` where they are JSON but not an object; for an object, the
/// text of its `settings` value where it has that key, how many keys are
/// left without it, and the text of the object without it.
pub uninterp spec fn pipe_json_parts(pipe: Seq<u8>) -> Option<Option<(Option<Seq<char>>, nat, Seq<char>)>>;

pub open spec fn parts_view(r: Option<Option<(Option<String>, usize, String)>>) -> Option<
    Option<(Option<Seq<char>>, nat, Seq<char>)>,
> {
    match r {
        None => None,
        Some(None) => Some(None),
        Some(Some((s, n, t))) => Some(
            Some(
                (
                    match s {
                        Some(x) => Some(x@),
                        None => None,
                    },
                    n as nat,
                    t@,
                ),
            ),
        ),
    }
}

/// Reads piped bytes with `serde_json::from_slice` into a `Value`, takes
/// the `settings` key out of an object and writes the value and the rest
/// back out with `Value::to_string`.
///
/// Trusted: the result is a function of the bytes alone (`serde_json`
/// keeps an object's keys in sorted order); what it is, is not restated.
#[verifier::external_body]
fn split_pipe_json(pipe: &[u8]) -> (r: Option<Option<(Option<String>, usize, String)>>)
    ensures
        parts_view(r) == pipe_json_parts(pipe@),
{
    match serde_json::from_slice::<serde_json::Value>(pipe) {
        Err(_) => None,
        Ok(mut value) => match value.as_object_mut() {
            None => Some(None),
            Some(obj) => {
                let settings = obj.remove("settings").map(|v| v.to_string());
                let left = obj.len();
                Some(Some((settings, left, value.to_string())))
            },
        },
    }
}

/// Piped data before its settings are read as requests: the text of the
/// settings, and the elements.
pub struct PipedText {
    pub settings: Option<String>,
    pub elements: Option<String>,
}

pub open spec fn text_view(o: Option<String>) -> Option<Seq<char>> {
    match o {
        Some(s) => Some(s@),
        None => None,
    }
}

impl PipedData {
    /// What a window makes of piped bytes: bytes that are not JSON are the
    /// elements themselves; a JSON object gives the text of its settings
    /// and, where anything else is in it, the rest as elements; other JSON
    /// gives nothing. The settings text is then read as requests, and
    /// settings that cannot be read are left out.
    pub fn new(pipe: &[u8]) -> (r: Option<PipedText>)
        ensures
            match pipe_json_parts(pipe@) {
                None => r matches Some(d) && d.settings is None && text_view(d.elements) == Some(
                    crate::daemon::lossy_text(pipe@),
                ),
                Some(None) => r is None,
                Some(Some((settings, left, rest))) => r matches Some(d) && text_view(d.settings)
                    == settings && text_view(d.elements) == if left > 0 {
                    Some(rest)
                } else {
                    None
                },
            },
    {
        match split_pipe_json(pipe) {
            None => Some(PipedText { settings: None, elements: Some(crate::daemon::utf8_lossy(pipe)) }),
            Some(None) => None,
            Some(Some((settings, left, rest))) => {
                let elements = if left > 0 {
                    Some(rest)
                } else {
                    None
                };
                Some(PipedText { settings, elements })
            },
        }
    }
}

/// What a window was started with on its input.
pub enum PipeInput {
    /// Nothing was piped.
    Empty,
    /// Piped text to be shown as it is.
    Raw(String),
    /// Piped data, where it could be read.
    Data(Option<PipedData>),
}

/// Whether the error view opens: errors do unless suppressed, warnings do
/// unless errors or warnings are suppressed.
pub fn error_view_active(suppress_errors: bool, suppress_warnings: bool, has_errors: bool, has_warnings: bool) -> (r: bool)
    ensures
        r == (!suppress_errors && (has_errors || (!suppress_warnings && has_warnings))),
{
    if !suppress_errors {
        has_errors || (!suppress_warnings && has_warnings)
    } else {
        false
    }
}

/// The mode a window opens in for what was piped.
pub open spec fn start_mode(input: PipeInput) -> SherlockModes {
    match input {
        PipeInput::Raw(text) => SherlockModes::DisplayRaw(text),
        PipeInput::Data(Some(d)) => match d.elements {
            Some(e) => SherlockModes::Pipe(e),
            None => SherlockModes::Search,
        },
        _ => SherlockModes::Search,
    }
}

/// The settings that piped data carries.
pub open spec fn start_settings(input: PipeInput) -> Seq<ApiCall> {
    match input {
        PipeInput::Data(Some(d)) => match d.settings {
            Some(s) => s@,
            None => Seq::empty(),
        },
        _ => Seq::empty(),
    }
}

/// The requests a new window starts with: the piped settings, the switch
/// to its mode, and the switch to the error view where that is active.
pub fn startup_requests(input: PipeInput, error_view: bool) -> (r: Vec<ApiCall>)
    ensures
        r@ == start_settings(input) + seq![ApiCall::SwitchMode(start_mode(input))] + if error_view {
            seq![ApiCall::SwitchMode(SherlockModes::Error)]
        } else {
            Seq::empty()
        },
{
    let ghost inp = input;
    let mut out: Vec<ApiCall> = Vec::new();
    let mode = match input {
        PipeInput::Raw(text) => SherlockModes::DisplayRaw(text),
        PipeInput::Data(Some(d)) => {
            match d.settings {
                Some(s) => {
                    out = s;
                },
                None => {},
            }
            match d.elements {
                Some(e) => SherlockModes::Pipe(e),
                None => SherlockModes::Search,
            }
        },
        _ => SherlockModes::Search,
    };
    assert(out@ == start_settings(inp));
    assert(mode == start_mode(inp));
    out.push(ApiCall::SwitchMode(mode));
    if error_view {
        out.push(ApiCall::SwitchMode(SherlockModes::Error));
    }
    out
}

/// What switching to a mode does to the window.
pub enum ModeStep {
    /// Fill the search view and show its page.
    ShowSearch,
    /// Show the piped elements.
    LoadPipe(String),
    /// Show the piped text raw on its own page.
    ShowRaw(String),
    /// Show the error page.
    ShowErrors,
    /// Open an input window, hiding what is typed where asked.
    SpawnInput(bool),
}

pub fn mode_step(mode: SherlockModes) -> (r: ModeStep)
    ensures
        match mode {
            SherlockModes::Search => r is ShowSearch,
            SherlockModes::Pipe(p) => r matches ModeStep::LoadPipe(q) && q == p,
            SherlockModes::DisplayRaw(p) => r matches ModeStep::ShowRaw(q) && q == p,
            SherlockModes::Error => r is ShowErrors,
            SherlockModes::Input(o) => r matches ModeStep::SpawnInput(b) && b == o,
        },
{
    match mode {
        SherlockModes::Search => ModeStep::ShowSearch,
        SherlockModes::Pipe(p) => ModeStep::LoadPipe(p),
        SherlockModes::DisplayRaw(p) => ModeStep::ShowRaw(p),
        SherlockModes::Error => ModeStep::ShowErrors,
        SherlockModes::Input(o) => ModeStep::SpawnInput(o),
    }
}

/// The requests a message to the server makes: a request as it was sent,
/// or the settings and elements of piped data (the elements shown raw
/// where the settings ask for it), or none where it is neither.
pub fn server_requests(call: Option<ApiCall>, piped: Option<PipedData>, display_raw: bool) -> (r: Vec<ApiCall>)
    ensures
        call is Some ==> r@ == seq![call->0],
        call is None ==> match piped {
                Some(d) => r@ == (match d.settings {
                    Some(s) => s@,
                    None => Seq::empty(),
                }) + match d.elements {
                    Some(e) => seq![
                        if display_raw {
                            ApiCall::DisplayRaw(e)
                        } else {
                            ApiCall::Pipe(e)
                        },
                    ],
                    None => Seq::empty(),
                },
                None => r@.len() == 0,
            },
{
    match call {
        Some(c) => {
            let ghost gc = c;
            let mut v: Vec<ApiCall> = Vec::new();
            v.push(c);
            assert(v@ =~= seq![gc]);
            v
        },
        None => match piped {
            Some(d) => {
                let ghost dd = d;
                let mut out: Vec<ApiCall> = match d.settings {
                    Some(s) => s,
                    None => Vec::new(),
                };
                let ghost mid = out@;
                match d.elements {
                    Some(e) => {
                        let ghost ge = e;
                        let req = if display_raw {
                            ApiCall::DisplayRaw(e)
                        } else {
                            ApiCall::Pipe(e)
                        };
                        out.push(req);
                        assert(out@ =~= mid + seq![
                            if display_raw {
                                ApiCall::DisplayRaw(ge)
                            } else {
                                ApiCall::Pipe(ge)
                            },
                        ]);
                    },
                    None => {
                        assert(out@ =~= mid + Seq::<ApiCall>::empty());
                    },
                }
                proof {
                    assert(mid == match dd.settings {
                        Some(s) => s@,
                        None => Seq::<ApiCall>::empty(),
                    });
                }
                out
            },
            None => Vec::new(),
        },
    }
}

/// Once every waiting request was carried out, the queue is empty.
pub proof fn lemma_flush_all_handled(queue: Seq<ApiCall>, handled: Seq<bool>)
    requires
        handled.len() == queue.len(),
        forall|i: int| 0 <= i < handled.len() ==> handled[i],
    ensures
        unhandled(queue, handled).len() == 0,
    decreases queue.len(),
{
    if queue.len() > 0 {
        lemma_flush_all_handled(queue.drop_last(), handled.drop_last());
    }
}

/// Flushing keeps no request that was carried out and every one that was
/// not, in their order: with nothing carried out the queue stays as it is.
pub proof fn lemma_flush_none_handled(queue: Seq<ApiCall>, handled: Seq<bool>)
    requires
        handled.len() == queue.len(),
        forall|i: int| 0 <= i < handled.len() ==> !handled[i],
    ensures
        unhandled(queue, handled) == queue,
    decreases queue.len(),
{
    if queue.len() > 0 {
        lemma_flush_none_handled(queue.drop_last(), handled.drop_last());
        assert(queue.drop_last().push(queue.last()) =~= queue);
    }
}

} // verus!
