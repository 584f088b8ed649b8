//! Command-line flags, the settings they override, and where the settings
//! are read from.
use vstd::prelude::*;
use vstd::string::StrSliceExecFns;
use crate::error::{SherlockError, SherlockErrorType};
use crate::paths::{expand, expand_path, extension, join, path_extension, path_join};
use crate::text::{chars_of, str_eq, string_of};

verus! {

/// Files the launcher reads.
pub struct ConfigFiles {
    pub config: String,
    pub fallback: String,
    pub css: String,
    pub alias: String,
    pub ignore: String,
}

pub struct ConfigBehavior {
    pub cache: String,
    pub caching: bool,
    pub daemonize: bool,
    pub sub_menu: Option<String>,
    pub field: Option<String>,
}

pub struct ConfigPipe {
    pub method: Option<String>,
}

pub struct ConfigUnits {
    pub lengths: String,
    pub weights: String,
    pub volumes: String,
    pub temperatures: String,
    pub currency: String,
}

pub struct ConfigDefaultApps {
    pub browser: Option<String>,
    pub teams: String,
    pub calendar_client: String,
    pub terminal: String,
}

pub struct ConfigRuntime {
    pub display_raw: bool,
    pub center: bool,
}

/// Whether the error view stays closed for errors or for warnings.
pub struct ConfigDebug {
    pub try_suppress_errors: bool,
    pub try_suppress_warnings: bool,
}

/// The launcher's settings.
pub struct SherlockConfig {
    pub files: ConfigFiles,
    pub behavior: ConfigBehavior,
    pub pipe: ConfigPipe,
    pub units: ConfigUnits,
    pub default_apps: ConfigDefaultApps,
    pub runtime: ConfigRuntime,
    pub debug: ConfigDebug,
}

/// What the command line asks for.
pub struct SherlockFlags {
    pub config: Option<String>,
    pub fallback: Option<String>,
    pub style: Option<String>,
    pub ignore: Option<String>,
    pub alias: Option<String>,
    pub display_raw: bool,
    pub center_raw: bool,
    pub cache: Option<String>,
    pub daemonize: bool,
    pub sub_menu: Option<String>,
    pub method: Option<String>,
    pub field: Option<String>,
}

pub open spec fn opt_view(o: Option<String>) -> Option<Seq<char>> {
    match o {
        Some(s) => Some(s@),
        None => None,
    }
}

/// Position of the first argument equal to `flag`.
pub open spec fn flag_index(args: Seq<String>, flag: Seq<char>) -> Option<int>
    decreases args.len(),
{
    if args.len() == 0 {
        None
    } else if args[0]@ == flag {
        Some(0)
    } else {
        match flag_index(args.drop_first(), flag) {
            Some(i) => Some(i + 1),
            None => None,
        }
    }
}

/// The argument after the first `flag`, where there is one.
pub open spec fn flag_value(args: Seq<String>, flag: Seq<char>) -> Option<Seq<char>> {
    match flag_index(args, flag) {
        Some(i) => if i + 1 < args.len() {
            Some(args[i + 1]@)
        } else {
            None
        },
        None => None,
    }
}

proof fn lemma_flag_index(args: Seq<String>, flag: Seq<char>)
    ensures
        match flag_index(args, flag) {
            Some(i) => 0 <= i < args.len() && args[i]@ == flag && forall|j: int|
                0 <= j < i ==> args[j]@ != flag,
            None => forall|j: int| 0 <= j < args.len() ==> args[j]@ != flag,
        },
    decreases args.len(),
{
    if args.len() > 0 && args[0]@ != flag {
        let t = args.drop_first();
        lemma_flag_index(t, flag);
        assert forall|j: int| 1 <= j < args.len() implies args[j] == t[j - 1] by {}
    }
}

proof fn lemma_flag_index_at(args: Seq<String>, flag: Seq<char>, i: int)
    requires
        0 <= i < args.len(),
        args[i]@ == flag,
        forall|j: int| 0 <= j < i ==> args[j]@ != flag,
    ensures
        flag_index(args, flag) == Some(i),
    decreases args.len(),
{
    if i > 0 {
        let t = args.drop_first();
        assert forall|j: int| 0 <= j < i - 1 implies t[j]@ != flag by {
            assert(t[j] == args[j + 1]);
        }
        lemma_flag_index_at(t, flag, i - 1);
    }
}

proof fn lemma_flag_index_none(args: Seq<String>, flag: Seq<char>)
    requires
        forall|j: int| 0 <= j < args.len() ==> args[j]@ != flag,
    ensures
        flag_index(args, flag) is None,
    decreases args.len(),
{
    if args.len() > 0 {
        let t = args.drop_first();
        assert forall|j: int| 0 <= j < t.len() implies t[j]@ != flag by {
            assert(t[j] == args[j + 1]);
        }
        lemma_flag_index_none(t, flag);
    }
}

fn find_flag(args: &Vec<String>, flag: &str) -> (r: Option<usize>)
    ensures
        match r {
            Some(i) => i < args@.len() && flag_index(args@, flag@) == Some(i as int),
            None => flag_index(args@, flag@) is None,
        },
{
    let mut i: usize = 0;
    while i < args.len()
        invariant
            i <= args@.len(),
            forall|j: int| 0 <= j < i ==> args@[j]@ != flag@,
        decreases args@.len() - i,
    {
        if str_eq(args[i].as_str(), flag) {
            proof {
                lemma_flag_index_at(args@, flag@, i as int);
            }
            return Some(i);
        }
        i = i + 1;
    }
    proof {
        lemma_flag_index_none(args@, flag@);
    }
    None
}

/// Whether `flag` is among the arguments.
pub fn has_flag(args: &Vec<String>, flag: &str) -> (r: bool)
    ensures
        r == flag_index(args@, flag@) is Some,
{
    find_flag(args, flag).is_some()
}

/// The argument after the first `flag`.
pub fn flag_arg(args: &Vec<String>, flag: &str) -> (r: Option<String>)
    ensures
        opt_view(r) == flag_value(args@, flag@),
{
    match find_flag(args, flag) {
        Some(i) => {
            let n = args.len();
            if i + 1 < n {
                Some(args[i + 1].clone())
            } else {
                None
            }
        },
        None => None,
    }
}

/// What the flags ask for before anything is loaded.
#[derive(PartialEq, Eq, Structural)]
pub enum FlagRequest {
    Help,
    Version,
    Run,
}

/// `--help` or `-h` ask for the help text, `--version` for the version;
/// anything else runs the launcher.
pub open spec fn flag_request_spec(args: Seq<String>) -> FlagRequest {
    if flag_index(args, "--help"@) is Some || flag_index(args, "-h"@) is Some {
        FlagRequest::Help
    } else if flag_index(args, "--version"@) is Some {
        FlagRequest::Version
    } else {
        FlagRequest::Run
    }
}

pub fn flag_request(args: &Vec<String>) -> (r: FlagRequest)
    ensures
        r == flag_request_spec(args@),
{
    if has_flag(args, "--help") || has_flag(args, "-h") {
        FlagRequest::Help
    } else if has_flag(args, "--version") {
        FlagRequest::Version
    } else {
        FlagRequest::Run
    }
}

/// Where `init` writes the default configuration: the argument after it,
/// or `~/.config/sherlock/`; `None` where `init` is not given.
pub fn init_target(args: &Vec<String>) -> (r: Option<String>)
    ensures
        opt_view(r) == if flag_index(args@, "init"@) is Some {
            Some(
                match flag_value(args@, "init"@) {
                    Some(v) => v,
                    None => "~/.config/sherlock/"@,
                },
            )
        } else {
            None
        },
{
    if !has_flag(args, "init") {
        return None;
    }
    match flag_arg(args, "init") {
        Some(v) => Some(v),
        None => Some(String::from_str("~/.config/sherlock/")),
    }
}

/// The flags that the arguments set.
pub open spec fn flags_from(args: Seq<String>, f: SherlockFlags) -> bool {
    &&& opt_view(f.config) == flag_value(args, "--config"@)
    &&& opt_view(f.fallback) == flag_value(args, "--fallback"@)
    &&& opt_view(f.style) == flag_value(args, "--style"@)
    &&& opt_view(f.ignore) == flag_value(args, "--ignore"@)
    &&& opt_view(f.alias) == flag_value(args, "--alias"@)
    &&& f.display_raw == flag_index(args, "--display-raw"@) is Some
    &&& f.center_raw == flag_index(args, "--center"@) is Some
    &&& opt_view(f.cache) == flag_value(args, "--cache"@)
    &&& f.daemonize == flag_index(args, "--daemonize"@) is Some
    &&& opt_view(f.sub_menu) == flag_value(args, "--sub-menu"@)
    &&& opt_view(f.method) == flag_value(args, "--method"@)
    &&& opt_view(f.field) == flag_value(args, "--field"@)
}

impl SherlockFlags {
    /// Reads the flags from the command-line arguments; this never fails.
    pub fn new(args: Vec<String>) -> (r: Result<Self, SherlockError>)
        ensures
            r matches Ok(f) && flags_from(args@, f),
    {
        Ok(SherlockFlags {
            config: flag_arg(&args, "--config"),
            fallback: flag_arg(&args, "--fallback"),
            style: flag_arg(&args, "--style"),
            ignore: flag_arg(&args, "--ignore"),
            alias: flag_arg(&args, "--alias"),
            display_raw: has_flag(&args, "--display-raw"),
            center_raw: has_flag(&args, "--center"),
            cache: flag_arg(&args, "--cache"),
            daemonize: has_flag(&args, "--daemonize"),
            sub_menu: flag_arg(&args, "--sub-menu"),
            method: flag_arg(&args, "--method"),
            field: flag_arg(&args, "--field"),
        })
    }
}

impl Default for SherlockFlags {
    /// No flags given.
    fn default() -> (r: Self)
        ensures
            r.config is None && r.fallback is None && r.style is None && r.ignore is None
                && r.alias is None && !r.display_raw && !r.center_raw && r.cache is None
                && !r.daemonize && r.sub_menu is None && r.method is None && r.field is None,
    {
        SherlockFlags {
            config: None,
            fallback: None,
            style: None,
            ignore: None,
            alias: None,
            display_raw: false,
            center_raw: false,
            cache: None,
            daemonize: false,
            sub_menu: None,
            method: None,
            field: None,
        }
    }
}

/// A file setting after the flags: the flag's path where given, else the
/// configured one, with `~` read as the home directory.
pub open spec fn overridden(flag: Option<String>, configured: String, home: Seq<char>) -> Seq<
    char,
> {
    expand(
        match flag {
            Some(f) => f@,
            None => configured@,
        },
        home,
    )
}

fn override_path(flag: &Option<String>, configured: &String, home: &str) -> (r: String)
    ensures
        r@ == overridden(*flag, *configured, home@),
{
    match flag {
        Some(f) => expand_path(f.as_str(), home),
        None => expand_path(configured.as_str(), home),
    }
}

fn clone_opt(o: &Option<String>) -> (r: Option<String>)
    ensures
        opt_view(r) == opt_view(*o),
{
    match o {
        Some(s) => Some(s.clone()),
        None => None,
    }
}

/// How the flags change the settings.
pub open spec fn flags_applied(f: SherlockFlags, c: SherlockConfig, home: Seq<char>, r: SherlockConfig) -> bool {
    &&& r.files.config@ == overridden(f.config, c.files.config, home)
    &&& r.files.fallback@ == overridden(f.fallback, c.files.fallback, home)
    &&& r.files.css@ == overridden(f.style, c.files.css, home)
    &&& r.files.alias@ == overridden(f.alias, c.files.alias, home)
    &&& r.files.ignore@ == overridden(f.ignore, c.files.ignore, home)
    &&& r.behavior.cache@ == overridden(f.cache, c.behavior.cache, home)
    &&& opt_view(r.behavior.sub_menu) == opt_view(f.sub_menu)
    &&& opt_view(r.pipe.method) == opt_view(f.method)
    &&& opt_view(r.behavior.field) == opt_view(f.field)
    &&& r.behavior.daemonize == (c.behavior.daemonize || f.daemonize)
    &&& r.behavior.caching == c.behavior.caching
    &&& r.units == c.units
    &&& r.default_apps == c.default_apps
    &&& r.runtime == c.runtime
    &&& r.debug == c.debug
}

pub struct Loader;

impl Loader {
    /// The settings with the flags applied. Without a home directory the
    /// settings are kept as they are.
    pub fn apply_flags(sherlock_flags: &SherlockFlags, config: SherlockConfig, home: Option<&str>) -> (r:
        SherlockConfig)
        ensures
            match home {
                Some(h) => flags_applied(*sherlock_flags, config, h@, r),
                None => r == config,
            },
    {
        let h = match home {
            Some(h) => h,
            None => return config,
        };
        let mut config = config;
        config.files.config = override_path(&sherlock_flags.config, &config.files.config, h);
        config.files.fallback = override_path(&sherlock_flags.fallback, &config.files.fallback, h);
        config.files.css = override_path(&sherlock_flags.style, &config.files.css, h);
        config.files.alias = override_path(&sherlock_flags.alias, &config.files.alias, h);
        config.files.ignore = override_path(&sherlock_flags.ignore, &config.files.ignore, h);
        config.behavior.cache = override_path(&sherlock_flags.cache, &config.behavior.cache, h);
        config.behavior.sub_menu = clone_opt(&sherlock_flags.sub_menu);
        config.pipe.method = clone_opt(&sherlock_flags.method);
        config.behavior.field = clone_opt(&sherlock_flags.field);
        if sherlock_flags.daemonize {
            config.behavior.daemonize = true;
        }
        config
    }
}

/// Where the settings are read from: the `--config` path, or
/// `~/.config/sherlock/config.toml`.
pub open spec fn config_path_spec(flag: Option<Seq<char>>, home: Seq<char>) -> Seq<char> {
    match flag {
        Some(p) => expand(p, home),
        None => path_join(home, ".config/sherlock/config.toml"@),
    }
}

pub fn config_path(flag: Option<&str>, home: &str) -> (r: String)
    ensures
        r@ == config_path_spec(
            match flag {
                Some(f) => Some(f@),
                None => None,
            },
            home@,
        ),
{
    match flag {
        Some(p) => expand_path(p, home),
        None => join(home, ".config/sherlock/config.toml"),
    }
}

/// How the settings file is read.
#[derive(PartialEq, Eq, Structural)]
pub enum ConfigFormat {
    Json,
    Toml,
    /// An extension that is neither; reading it fails.
    Unknown,
}

/// `path` with the last four characters of its file name replaced, as
/// `Path::set_extension` does for a four-character extension: what `Path`
/// ignores at the end of a path goes too.
pub open spec fn swap_ext(path: Seq<char>, ext: Seq<char>) -> Seq<char> {
    let t = crate::paths::trim_tail(path);
    t.take(t.len() - 4) + ext
}

/// The file and format to read: a missing `.json` file is looked for as
/// `.toml` and the other way round; a path without extension is refused.
pub open spec fn config_choice(path: Seq<char>, exists: bool) -> Option<(Seq<char>, ConfigFormat)> {
    match extension(path) {
        None => None,
        Some(e) => if e == "json"@ {
            if exists {
                Some((path, ConfigFormat::Json))
            } else {
                Some((swap_ext(path, "toml"@), ConfigFormat::Toml))
            }
        } else if e == "toml"@ {
            if exists {
                Some((path, ConfigFormat::Toml))
            } else {
                Some((swap_ext(path, "json"@), ConfigFormat::Json))
            }
        } else {
            Some((path, ConfigFormat::Unknown))
        },
    }
}

/// The text of the error for a settings file that cannot be read as any
/// format.
pub open spec fn invalid_format_text(path: Seq<char>) -> Seq<char> {
    "The file \""@ + path + "\" is not in a valid format."@
}

fn invalid_format(path: &str) -> (r: SherlockError)
    ensures
        r.error matches SherlockErrorType::FileParseError(p) && p@ == path@,
        r.traceback@ == invalid_format_text(path@),
{
    let mut t = String::from_str("The file \"");
    t.append(path);
    t.append("\" is not in a valid format.");
    SherlockError { error: SherlockErrorType::FileParseError(String::from_str(path)), traceback: t }
}

fn with_ext(path: &str, ext: &str) -> (r: String)
    requires
        crate::paths::trim_tail(path@).len() >= 4,
    ensures
        r@ == swap_ext(path@, ext@),
{
    let v = crate::paths::trimmed_path(path);
    let head = vstd::slice::slice_subrange(v.as_slice(), 0, v.len() - 4);
    let mut r = string_of(head);
    r.append(ext);
    proof {
        assert(head@ =~= v@.take(v@.len() - 4));
    }
    r
}

proof fn lemma_ext_len(path: Seq<char>)
    requires
        extension(path) matches Some(e) && e.len() == 4,
    ensures
        crate::paths::trim_tail(path).len() >= 5,
{
    crate::paths::lemma_extension_ends_path(path);
}

/// Which file to read the settings from and how; `exists` tells whether
/// `path` exists.
pub fn config_file_choice(path: &str, exists: bool) -> (r: Result<(String, ConfigFormat), SherlockError>)
    ensures
        match r {
            Ok((p, f)) => config_choice(path@, exists) == Some((p@, f)),
            Err(e) => {
                &&& config_choice(path@, exists) is None
                &&& e.error matches SherlockErrorType::FileParseError(p) && p@ == path@
                &&& e.traceback@ == invalid_format_text(path@)
            },
        },
{
    proof {
        reveal_strlit("json");
        reveal_strlit("toml");
    }
    match path_extension(path) {
        None => Err(invalid_format(path)),
        Some(e) => {
            if str_eq(e.as_str(), "json") {
                proof {
                    lemma_ext_len(path@);
                }
                if exists {
                    Ok((String::from_str(path), ConfigFormat::Json))
                } else {
                    Ok((with_ext(path, "toml"), ConfigFormat::Toml))
                }
            } else if str_eq(e.as_str(), "toml") {
                proof {
                    lemma_ext_len(path@);
                }
                if exists {
                    Ok((String::from_str(path), ConfigFormat::Toml))
                } else {
                    Ok((with_ext(path, "json"), ConfigFormat::Json))
                }
            } else {
                Ok((String::from_str(path), ConfigFormat::Unknown))
            }
        },
    }
}

/// What reading the settings file gave.
pub enum ConfigRead {
    /// The file was read and parsed; `parse_error` holds the parser's
    /// message where parsing failed.
    Read { parse_error: Option<String> },
    NotFound { message: String },
    Failed { message: String },
}

/// How loading the settings ends.
pub enum ConfigOutcome {
    /// The parsed settings are used, with the flags applied.
    Parsed,
    /// The default settings are used, with the flags applied; the error is
    /// reported without stopping.
    Defaults(SherlockError),
    /// Loading stops with this error.
    Fail(SherlockError),
}

/// How loading ends for the file at `path` read as `format`: an unknown
/// format stops with a parse error; a parse error or a missing file falls
/// back to the defaults and reports it; any other read error stops.
pub fn config_outcome(path: &str, format: ConfigFormat, read: ConfigRead) -> (r: ConfigOutcome)
    ensures
        match read {
            ConfigRead::Read { parse_error } => match format {
                ConfigFormat::Unknown => r matches ConfigOutcome::Fail(e) && (
                e.error matches SherlockErrorType::FileParseError(p) && p@ == path@)
                    && e.traceback@ == invalid_format_text(path@),
                _ => match parse_error {
                    None => r is Parsed,
                    Some(m) => r matches ConfigOutcome::Defaults(e) && (
                    e.error matches SherlockErrorType::FileParseError(p) && p@ == path@)
                        && e.traceback@ == m@,
                },
            },
            ConfigRead::NotFound { message } => r matches ConfigOutcome::Defaults(e) && (
            e.error matches SherlockErrorType::FileExistError(p) && p@ == path@)
                && e.traceback@ == message@,
            ConfigRead::Failed { message } => r matches ConfigOutcome::Fail(e) && (
            e.error matches SherlockErrorType::FileReadError(p) && p@ == path@)
                && e.traceback@ == message@,
        },
{
    match read {
        ConfigRead::Read { parse_error } => match format {
            ConfigFormat::Unknown => ConfigOutcome::Fail(invalid_format(path)),
            _ => match parse_error {
                None => ConfigOutcome::Parsed,
                Some(m) => ConfigOutcome::Defaults(
                    SherlockError {
                        error: SherlockErrorType::FileParseError(String::from_str(path)),
                        traceback: m,
                    },
                ),
            },
        },
        ConfigRead::NotFound { message } => ConfigOutcome::Defaults(
            SherlockError {
                error: SherlockErrorType::FileExistError(String::from_str(path)),
                traceback: message,
            },
        ),
        ConfigRead::Failed { message } => ConfigOutcome::Fail(
            SherlockError {
                error: SherlockErrorType::FileReadError(String::from_str(path)),
                traceback: message,
            },
        ),
    }
}

/// `s` padded with spaces to fifteen characters, as `{:<15}` writes it.
pub open spec fn pad15(s: Seq<char>) -> Seq<char> {
    if s.len() >= 15 {
        s
    } else {
        s + Seq::new((15 - s.len()) as nat, |i: int| ' ')
    }
}

fn pad_line(flag: &str, text: &str) -> (r: String)
    ensures
        r@ == pad15(flag@) + " "@ + text@,
{
    proof {
        reveal_strlit(" ");
    }
    let mut r = String::from_str(flag);
    let n = flag.unicode_len();
    if n < 15 {
        let mut k: usize = n;
        while k < 15
            invariant
                n == flag@.len(),
                n <= k <= 15,
                r@ == flag@ + Seq::new((k - n) as nat, |i: int| ' '),
            decreases 15 - k,
        {
            proof {
                reveal_strlit(" ");
            }
            r.append(" ");
            k = k + 1;
            assert(r@ =~= flag@ + Seq::new((k - n) as nat, |i: int| ' '));
        }
        assert(r@ =~= pad15(flag@));
    }
    r.append(" ");
    r.append(text);
    r
}

/// The flags that the help text lists, with their explanations; a heading
/// has an empty explanation.
pub open spec fn help_table() -> Seq<(&'static str, &'static str)> {
    seq![
        ("\nBASICS:", ""),
        ("--version", "Print the version of the application."),
        ("--help", "Show this help message with allowed flags."),
        ("init", "Writes default configs into your config directory."),
        ("\nFILES:", ""),
        ("--config", "Specify the configuration file to load."),
        ("--fallback", "Specify the fallback file to load."),
        ("--style", "Set the style configuration file."),
        ("--ignore", "Specify the sherlock ignore file"),
        ("--alias", "Specify the sherlock alias file (.json)."),
        ("--cache", "Specify the sherlock cache file (.json)."),
        ("\nBEHAVIOR:", ""),
        ("--daemonize", "If this flag is set, sherlock will run in daemon mode."),
        (
            "--sub-menu",
            "Start sherlock with an alias active already. For example 'pm' for power menu",
        ),
        ("--time-inspect", "Show time for loading launchers and from 0 to full content"),
        ("\nPIPE MODE:", ""),
        ("--display-raw", "Force Sherlock to use a singular tile to display the piped content"),
        ("--method", "Specifies what to do with the selected data row"),
        ("--field", "Specifies which of your fields should be printed on return press"),
    ]
}

/// Every flag that the help text lists as taking a file or a value is read
/// from the argument after it, and every switch it lists is set by being
/// given: the flags of the help table are the ones the launcher reads.
pub proof fn lemma_help_flags_are_read(args: Seq<String>, f: SherlockFlags)
    requires
        flags_from(args, f),
    ensures
        help_table()[5].0@ == "--config"@ && opt_view(f.config) == flag_value(args, help_table()[5].0@),
        help_table()[6].0@ == "--fallback"@ && opt_view(f.fallback) == flag_value(args, help_table()[6].0@),
        help_table()[7].0@ == "--style"@ && opt_view(f.style) == flag_value(args, help_table()[7].0@),
        help_table()[8].0@ == "--ignore"@ && opt_view(f.ignore) == flag_value(args, help_table()[8].0@),
        help_table()[9].0@ == "--alias"@ && opt_view(f.alias) == flag_value(args, help_table()[9].0@),
        help_table()[10].0@ == "--cache"@ && opt_view(f.cache) == flag_value(args, help_table()[10].0@),
        help_table()[12].0@ == "--daemonize"@ && f.daemonize == flag_index(args, help_table()[12].0@) is Some,
        help_table()[13].0@ == "--sub-menu"@ && opt_view(f.sub_menu) == flag_value(args, help_table()[13].0@),
        help_table()[16].0@ == "--display-raw"@ && f.display_raw == flag_index(args, help_table()[16].0@) is Some,
        help_table()[17].0@ == "--method"@ && opt_view(f.method) == flag_value(args, help_table()[17].0@),
        help_table()[18].0@ == "--field"@ && opt_view(f.field) == flag_value(args, help_table()[18].0@),
{
}

pub fn help_entries() -> (r: Vec<(&'static str, &'static str)>)
    ensures
        r@ == help_table(),
{
    let v = vec![
        ("\nBASICS:", ""),
        ("--version", "Print the version of the application."),
        ("--help", "Show this help message with allowed flags."),
        ("init", "Writes default configs into your config directory."),
        ("\nFILES:", ""),
        ("--config", "Specify the configuration file to load."),
        ("--fallback", "Specify the fallback file to load."),
        ("--style", "Set the style configuration file."),
        ("--ignore", "Specify the sherlock ignore file"),
        ("--alias", "Specify the sherlock alias file (.json)."),
        ("--cache", "Specify the sherlock cache file (.json)."),
        ("\nBEHAVIOR:", ""),
        ("--daemonize", "If this flag is set, sherlock will run in daemon mode."),
        (
            "--sub-menu",
            "Start sherlock with an alias active already. For example 'pm' for power menu",
        ),
        ("--time-inspect", "Show time for loading launchers and from 0 to full content"),
        ("\nPIPE MODE:", ""),
        ("--display-raw", "Force Sherlock to use a singular tile to display the piped content"),
        ("--method", "Specifies what to do with the selected data row"),
        ("--field", "Specifies which of your fields should be printed on return press"),
    ];
    assert(v@ =~= help_table());
    v
}

/// The lines that `--help` prints: a header, one padded line per entry,
/// and where to read more.
pub fn help_lines() -> (r: Vec<String>)
    ensures
        r@.len() == 21,
        r@[0]@ == pad15("Flag"@) + " "@ + "Description"@,
        forall|i: int|
            0 <= i < 19 ==> #[trigger] r@[i + 1]@ == pad15(help_table()[i].0@) + " "@
                + help_table()[i].1@,
        r@[20]@ == "\n\nFor more help:\nhttps://github.com/Skxxtz/sherlock/blob/documentation/docs/flags.md\n\n"@,
{
    let entries = help_entries();
    let mut lines: Vec<String> = Vec::new();
    lines.push(pad_line("Flag", "Description"));
    let mut i: usize = 0;
    while i < 19
        invariant
            entries@.len() == 19,
            i <= 19,
            lines@.len() == i + 1,
            lines@[0]@ == pad15("Flag"@) + " "@ + "Description"@,
            entries@ == help_table(),
            forall|j: int|
                0 <= j < i ==> #[trigger] lines@[j + 1]@ == pad15(help_table()[j].0@) + " "@
                    + help_table()[j].1@,
        decreases 19 - i,
    {
        let (f, t) = entries[i];
        lines.push(pad_line(f, t));
        i = i + 1;
    }
    lines.push(
        String::from_str(
            "\n\nFor more help:\nhttps://github.com/Skxxtz/sherlock/blob/documentation/docs/flags.md\n\n",
        ),
    );
    lines
}

/// The lines that `--version` prints.
pub fn version_lines(version: &str) -> (r: Vec<String>)
    ensures
        r@.len() == 2,
        r@[0]@ == "Sherlock v"@ + version@,
        r@[1]@ == "Developed by Skxxtz"@,
{
    let mut first = String::from_str("Sherlock v");
    first.append(version);
    let mut v: Vec<String> = Vec::new();
    v.push(first);
    v.push(String::from_str("Developed by Skxxtz"));
    v
}

} // verus!
