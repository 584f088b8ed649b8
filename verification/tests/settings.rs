use sherlock::config::{
    config_file_choice, config_outcome, config_path, flag_arg, flag_request, has_flag, help_lines,
    init_target, version_lines, ConfigBehavior, ConfigDebug, ConfigDefaultApps, ConfigFiles, ConfigFormat,
    ConfigOutcome, ConfigPipe, ConfigRead, ConfigRuntime, ConfigUnits, FlagRequest, Loader,
    SherlockConfig, SherlockFlags,
};
use sherlock::error::SherlockErrorType;
use sherlock::paths::{expand_path, join, path_extension};

fn args(v: &[&str]) -> Vec<String> {
    v.iter().map(|s| s.to_string()).collect()
}

fn config() -> SherlockConfig {
    SherlockConfig {
        files: ConfigFiles {
            config: String::from("~/.config/sherlock/config.toml"),
            fallback: String::from("~/.config/sherlock/fallback.json"),
            css: String::from("/etc/sherlock/main.css"),
            alias: String::from("~/.config/sherlock/sherlock_alias.json"),
            ignore: String::from("~/.config/sherlock/sherlockignore"),
        },
        behavior: ConfigBehavior {
            cache: String::from("~/.cache/sherlock/cache.json"),
            caching: true,
            daemonize: false,
            sub_menu: Some(String::from("old")),
            field: None,
        },
        pipe: ConfigPipe { method: None },
        units: ConfigUnits {
            lengths: String::from("meters"),
            weights: String::from("kg"),
            volumes: String::from("l"),
            temperatures: String::from("C"),
            currency: String::from("eur"),
        },
        default_apps: ConfigDefaultApps {
            browser: None,
            teams: String::from("teams"),
            calendar_client: String::from("thunderbird"),
            terminal: String::from("kitty"),
        },
        runtime: ConfigRuntime { display_raw: false, center: false },
        debug: ConfigDebug { try_suppress_errors: false, try_suppress_warnings: true },
    }
}

#[test]
fn flags_are_read_after_their_names() {
    let a = args(&["sherlock", "--config", "~/c.toml", "--daemonize", "--sub-menu", "pm", "--field"]);
    let f = SherlockFlags::new(a.clone()).unwrap();
    assert_eq!(f.config.as_deref(), Some("~/c.toml"));
    assert!(f.daemonize);
    assert_eq!(f.sub_menu.as_deref(), Some("pm"));
    assert!(f.field.is_none());
    assert!(!f.display_raw);
    assert!(has_flag(&a, "--field"));
    assert_eq!(flag_arg(&a, "--config").as_deref(), Some("~/c.toml"));
}

#[test]
fn help_and_version_requests() {
    assert!(flag_request(&args(&["s", "-h"])) == FlagRequest::Help);
    assert!(flag_request(&args(&["s", "--version", "--help"])) == FlagRequest::Help);
    assert!(flag_request(&args(&["s", "--version"])) == FlagRequest::Version);
    assert!(flag_request(&args(&["s"])) == FlagRequest::Run);
    assert_eq!(init_target(&args(&["s", "init"])).as_deref(), Some("~/.config/sherlock/"));
    assert_eq!(init_target(&args(&["s", "init", "/x"])).as_deref(), Some("/x"));
    assert!(init_target(&args(&["s"])).is_none());
}

#[test]
fn default_flags_are_empty() {
    let f = SherlockFlags::default();
    assert!(f.config.is_none() && !f.daemonize && f.method.is_none());
}

#[test]
fn apply_flags_expands_home_and_overrides() {
    let f = SherlockFlags::new(args(&["s", "--style", "~/my.css", "--method", "print", "--daemonize"])).unwrap();
    let c = Loader::apply_flags(&f, config(), Some("/home/u"));
    assert_eq!(c.files.config, "/home/u/.config/sherlock/config.toml");
    assert_eq!(c.files.css, "/home/u/my.css");
    assert_eq!(c.behavior.cache, "/home/u/.cache/sherlock/cache.json");
    assert!(c.behavior.sub_menu.is_none());
    assert_eq!(c.pipe.method.as_deref(), Some("print"));
    assert!(c.behavior.daemonize);
    assert!(!c.debug.try_suppress_errors && c.debug.try_suppress_warnings);
    let unchanged = Loader::apply_flags(&f, config(), None);
    assert_eq!(unchanged.files.css, "/etc/sherlock/main.css");
}

#[test]
fn paths() {
    assert_eq!(expand_path("~", "/home/u"), "/home/u");
    assert_eq!(expand_path("~/a", "/home/u/"), "/home/u/a");
    assert_eq!(expand_path("/abs/~/a", "/home/u"), "/abs/~/a");
    assert_eq!(join("/a", "/b"), "/b");
    assert_eq!(join("", "b"), "b");
    assert_eq!(path_extension("/x/y.tar.gz").as_deref(), Some("gz"));
    assert!(path_extension("/x/.bashrc").is_none());
    assert!(path_extension("/x.d/y").is_none());
}

#[test]
fn config_file_and_format() {
    assert_eq!(config_path(None, "/home/u"), "/home/u/.config/sherlock/config.toml");
    assert_eq!(config_path(Some("~/c.json"), "/home/u"), "/home/u/c.json");
    let (p, f) = config_file_choice("/c/config.toml", false).unwrap();
    assert_eq!(p, "/c/config.json");
    assert!(f == ConfigFormat::Json);
    let (p, f) = config_file_choice("/c/config.json", true).unwrap();
    assert_eq!(p, "/c/config.json");
    assert!(f == ConfigFormat::Json);
    let (_, f) = config_file_choice("/c/config.yaml", true).unwrap();
    assert!(f == ConfigFormat::Unknown);
    let e = config_file_choice("/c/config", true).err().unwrap();
    assert!(matches!(e.error, SherlockErrorType::FileParseError(_)));
    assert_eq!(e.traceback, "The file \"/c/config\" is not in a valid format.");
}

#[test]
fn config_outcomes() {
    let parsed = config_outcome("/c", ConfigFormat::Toml, ConfigRead::Read { parse_error: None });
    assert!(matches!(parsed, ConfigOutcome::Parsed));
    match config_outcome("/c", ConfigFormat::Json, ConfigRead::Read { parse_error: Some(String::from("bad")) }) {
        ConfigOutcome::Defaults(e) => {
            assert!(matches!(e.error, SherlockErrorType::FileParseError(_)));
            assert_eq!(e.traceback, "bad");
        }
        _ => panic!("defaults expected"),
    }
    match config_outcome("/c", ConfigFormat::Toml, ConfigRead::NotFound { message: String::from("nf") }) {
        ConfigOutcome::Defaults(e) => assert!(matches!(e.error, SherlockErrorType::FileExistError(_))),
        _ => panic!("defaults expected"),
    }
    match config_outcome("/c", ConfigFormat::Toml, ConfigRead::Failed { message: String::from("io") }) {
        ConfigOutcome::Fail(e) => assert!(matches!(e.error, SherlockErrorType::FileReadError(_))),
        _ => panic!("failure expected"),
    }
    match config_outcome("/c", ConfigFormat::Unknown, ConfigRead::Read { parse_error: None }) {
        ConfigOutcome::Fail(e) => assert!(matches!(e.error, SherlockErrorType::FileParseError(_))),
        _ => panic!("failure expected"),
    }
}

#[test]
fn help_text_lines() {
    let lines = help_lines();
    assert_eq!(lines.len(), 21);
    assert_eq!(lines[0], "Flag            Description");
    assert_eq!(lines[2], "--version       Print the version of the application.");
    assert_eq!(lines[1], "\nBASICS:        ");
    assert_eq!(version_lines("1.2.3"), vec![String::from("Sherlock v1.2.3"), String::from("Developed by Skxxtz")]);
}

#[test]
fn trailing_separators_are_ignored_in_names() {
    assert_eq!(path_extension("/home/u/config.json/").as_deref(), Some("json"));
    assert_eq!(path_extension("/home/u/config.json/.").as_deref(), Some("json"));
    assert!(path_extension("/home/u/..").is_none());
    assert!(path_extension("/").is_none());
    let (p, f) = config_file_choice("/home/u/config.json/", false).ok().unwrap();
    assert_eq!(p, "/home/u/config.toml");
    assert!(f == ConfigFormat::Toml);
}
