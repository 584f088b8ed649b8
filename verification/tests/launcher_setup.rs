use sherlock::helpers::{
    app_tiles, attr_line, bulk_text_tile, calc_attrs, collect_modes, get_application,
    launcher_shows, on_text_changed, read_from_label, search_key, shortcut_label, web_tile, AppData,
    LauncherInfo, SearchAction, SearchKey, TextChange,
};
use sherlock::counter::CountMap;
use sherlock::error::{SherlockError, SherlockErrorType};
use sherlock::loader::{
    assemble_launchers, deserialize_named_appdata, seed_counts, ConfigEntry, default_true, fallback_error, launcher_kind, launcher_method, launcher_order, parse_bulk_text_launcher,
    parse_capabilities, parse_event_launcher, parse_process_launcher, parse_weather_launcher,
    parse_web_launcher, ArgValue, FallbackFailure, Launcher, LauncherKind, LauncherType, RawLauncher,
};

fn s(v: &str) -> String {
    v.to_string()
}

#[test]
fn desktop_files_read_by_pattern() {
    let content = "[Desktop Entry]\nName=Htop\nIcon=htop\nExec=htop\nTerminal=true\n";
    let (name, app) = get_application(content, &vec![], Some("kitty -e")).unwrap();
    assert_eq!(name, "Htop");
    assert_eq!(app.icon, "htop");
    assert_eq!(app.command, "kitty -e htop");
    let (_, app) = get_application(content, &vec![], None).unwrap();
    assert_eq!(app.command, "htop");
    assert!(get_application(content, &vec![s("Htop")], None).is_none());
    assert!(get_application("[Desktop Entry]\nName=X\nNoDisplay=true\n", &vec![], None).is_none());
    assert!(get_application("[Desktop Entry]\nExec=x\n", &vec![], None).is_none());
}

#[test]
fn labels_hold_key_and_value() {
    assert_eq!(read_from_label("exec | firefox"), Some((s("exec"), s("firefox"))));
    assert_eq!(read_from_label("a | b | c"), None);
    assert_eq!(read_from_label("a|b"), None);
    assert_eq!(read_from_label(" | "), Some((s(""), s(""))));
}

#[test]
fn modes_from_aliases() {
    let launchers = vec![
        LauncherInfo { name: s("Power"), alias: Some(s("pm")) },
        LauncherInfo { name: s("Apps"), alias: None },
        LauncherInfo { name: s("Empty"), alias: Some(s("")) },
    ];
    let modes = collect_modes(&launchers);
    assert_eq!(modes, vec![(s("pm "), s("Power"))]);
    match on_text_changed(&modes, "pm ") {
        TextChange::SwitchMode { mode, title } => {
            assert_eq!(mode, "pm ");
            assert_eq!(title, "Power");
        }
        TextChange::Show => panic!("switch expected"),
    }
    assert!(matches!(on_text_changed(&modes, "pm"), TextChange::Show));
    assert!(launcher_shows(&Some(s("pm")), " pm "));
    assert!(launcher_shows(&None, "all"));
    assert!(!launcher_shows(&None, "pm"));
    assert!(launcher_shows(&None, ""));
}

#[test]
fn tiles_for_a_search() {
    assert_eq!(shortcut_label(0).as_deref(), Some("ctrl + 1"));
    assert!(shortcut_label(5).is_none());
    assert_eq!(attr_line("method", "web"), "method | web");
    let (i, t) = web_tile("Web", "web", "google", 4, "rust");
    assert_eq!(i, 5);
    let t = t.unwrap();
    assert_eq!(t.shortcut.as_deref(), Some("ctrl + 5"));
    assert_eq!(t.attrs, vec![s("method | web"), s("engine | google"), s("keyword | rust")]);
    let (i, t) = web_tile("Web", "web", "google", 4, "");
    assert_eq!(i, 4);
    assert!(t.is_none());
    let cmds = vec![
        (s("Firefox"), AppData { icon: s("ff"), command: s("firefox") }),
        (s("Files"), AppData { icon: s("f"), command: s("nautilus") }),
        (s("Kitty"), AppData { icon: s("k"), command: s("kitty") }),
    ];
    let (i, tiles) = app_tiles(&cmds, "Apps", "app", 0, "FI");
    assert_eq!(i, 2);
    assert_eq!(tiles.len(), 2);
    assert_eq!(tiles[1].title, "Files");
    assert_eq!(tiles[1].attrs, vec![s("method | app"), s("app_name | Files"), s("exec | nautilus")]);
    assert_eq!(tiles[1].shortcut.as_deref(), Some("ctrl + 2"));
    let (i, t) = bulk_text_tile("Wiki", "bulk", 7, "q");
    assert_eq!(i, 8);
    assert!(t.unwrap().shortcut.is_none());
    assert_eq!(calc_attrs("calc", "4"), vec![s("method | calc"), s("result | 4")]);
}

#[test]
fn result_list_keys() {
    assert!(matches!(search_key(SearchKey::Up, false), SearchAction::Move(-1)));
    assert!(matches!(search_key(SearchKey::BackSpace, true), SearchAction::ResetMode));
    assert!(matches!(search_key(SearchKey::BackSpace, false), SearchAction::Nothing));
    assert!(matches!(search_key(SearchKey::Digit { digit: 3, control: true }, false), SearchAction::ExecuteIndex(2)));
    assert!(matches!(search_key(SearchKey::Digit { digit: 3, control: false }, false), SearchAction::Nothing));
    assert!(matches!(search_key(SearchKey::Digit { digit: 6, control: true }, false), SearchAction::Nothing));
    assert!(matches!(search_key(SearchKey::Return, false), SearchAction::ExecuteSelected));
}

fn raw(kind: &str, args: ArgValue) -> RawLauncher {
    RawLauncher {
        name: Some(s("n")),
        alias: None,
        tag_start: None,
        tag_end: None,
        display_name: None,
        on_return: None,
        next_content: None,
        kind: s(kind),
        priority: 3,
        exit: true,
        shortcut: default_true(),
        spawn_focus: default_true(),
        is_async: false,
        home: false,
        only_home: false,
        args,
        actions: None,
        add_actions: None,
    }
}

fn obj(entries: Vec<(&str, ArgValue)>) -> ArgValue {
    ArgValue::Object(entries.into_iter().map(|(k, v)| (s(k), v)).collect())
}

#[test]
fn launcher_configurations() {
    assert!(launcher_kind("web_launcher") == LauncherKind::Web);
    assert!(launcher_kind("clipboard-execution") == LauncherKind::Clipboard);
    assert!(launcher_kind("nope") == LauncherKind::Empty);
    let mut r = raw("command", ArgValue::Null);
    assert_eq!(launcher_method(&r), "command");
    r.on_return = Some(s("copy"));
    assert_eq!(launcher_method(&r), "copy");
    let r = raw("bulk_text", obj(vec![("exec", ArgValue::Str(s("~/s.sh"))), ("exec-args", ArgValue::Number(Some(1)))]));
    let b = parse_bulk_text_launcher(&r);
    assert_eq!(b.executable, "~/s.sh");
    assert_eq!(b.args, "");
    assert_eq!(b.icon, "");
    let caps = obj(vec![("capabilities", ArgValue::Array(vec![ArgValue::Str(s("calc.math")), ArgValue::Bool(true), ArgValue::Str(s("calc.units"))]))]);
    assert_eq!(parse_capabilities(&caps), Some(vec![s("calc.math"), s("calc.units")]));
    assert_eq!(parse_capabilities(&obj(vec![("capabilities", ArgValue::Str(s("x")))])), None);
    let (icon, date, start, end) = parse_event_launcher(&raw("teams_event", ArgValue::Null));
    assert_eq!((icon.as_str(), date.as_str(), start.as_str(), end.as_str()), ("teams", "now", "-5 minutes", "+15 minutes"));
    assert_eq!(parse_process_launcher(&raw("process", ArgValue::Null)), "sherlock-process");
    assert!(parse_weather_launcher(&raw("weather", ArgValue::Null)).is_none());
    let w = parse_weather_launcher(&raw("weather", obj(vec![("location", ArgValue::Str(s("Berlin")))]))).unwrap();
    assert_eq!(w, (s("Berlin"), 60));
    let w = parse_weather_launcher(&raw("weather", obj(vec![("location", ArgValue::Str(s("Oslo"))), ("update_interval", ArgValue::Number(Some(15)))]))).unwrap();
    assert_eq!(w.1, 15);
    let mut r = raw("web_launcher", obj(vec![("search_engine", ArgValue::Str(s("bing")))]));
    r.display_name = Some(s("Search"));
    assert_eq!(parse_web_launcher(&r), (s("Search"), s(""), s("bing")));
}

#[test]
fn launchers_keep_their_settings_and_list_commands() {
    let r = raw("app_launcher", ArgValue::Null);
    let l = Launcher::from_raw(r, s("app_launcher"), LauncherType::App { execs: vec![Some(s("a")), None, Some(s("b"))] }, Some(s("icon")));
    assert_eq!(l.priority, 3);
    assert_eq!(l.icon.as_deref(), Some("icon"));
    assert_eq!(l.get_execs(), Some(vec![s("a"), s("b")]));
    let w = Launcher::from_raw(raw("web_launcher", ArgValue::Null), s("web"), LauncherType::Web { engine: s("ddg") }, None);
    assert_eq!(w.get_execs(), Some(vec![s("websearch-ddg")]));
    let c = Launcher::from_raw(raw("calculation", ArgValue::Null), s("calc"), LauncherType::Other(LauncherKind::Calculation), None);
    assert_eq!(c.get_execs(), None);
}

#[test]
fn launchers_are_ordered_by_priority() {
    assert_eq!(launcher_order(&vec![3, 1, 2, 1]), vec![1, 3, 2, 0]);
    assert_eq!(launcher_order(&vec![]), Vec::<usize>::new());
}

#[test]
fn fallback_errors() {
    let e = fallback_error("/f.json", FallbackFailure::NotFound);
    assert!(matches!(e.error, SherlockErrorType::FileExistError(_)));
    assert_eq!(e.traceback, "The file \"/f.json\" does not exist in the specified location.");
    let e = fallback_error("/f.json", FallbackFailure::ParseFailed(s("eof")));
    assert!(matches!(e.error, SherlockErrorType::FileParseError(_)));
    let e = fallback_error("/f.json", FallbackFailure::ReadFailed(s("io")));
    assert!(matches!(e.error, SherlockErrorType::FileReadError(_)));
}

#[test]
fn launchers_assembled_in_order_with_errors_apart() {
    let mut a = raw("web_launcher", obj(vec![("icon", ArgValue::Str(s("globe")))]));
    a.on_return = Some(s("open"));
    let b = raw("clipboard-execution", ArgValue::Null);
    let c = raw("command", ArgValue::Null);
    let parsed = vec![
        Ok(LauncherType::Web { engine: s("ddg") }),
        Err(SherlockError { error: SherlockErrorType::ClipboardError, traceback: s("no clipboard") }),
        Ok(LauncherType::Command { execs: vec![Some(s("ls")), None] }),
    ];
    let (launchers, errors) = assemble_launchers(vec![a, b, c], parsed);
    assert_eq!(launchers.len(), 2);
    assert_eq!(launchers[0].method, "open");
    assert_eq!(launchers[0].icon.as_deref(), Some("globe"));
    assert_eq!(launchers[1].method, "command");
    assert_eq!(launchers[1].icon, None);
    assert_eq!(errors.len(), 1);
    assert_eq!(errors[0].traceback, "no clipboard");
    assert!(matches!(errors[0].error, SherlockErrorType::ClipboardError));

    let seeded = seed_counts(&CountMap::new(), &launchers).unwrap();
    assert_eq!(seeded.get("websearch-ddg"), 0);
    assert_eq!(seeded.get("ls"), 0);
    assert_eq!(seeded.entries.len(), 2);
    let mut counts = CountMap::new();
    counts.set("ls", 4);
    assert!(seed_counts(&counts, &launchers).is_none());
}

#[test]
fn app_tiles_one_per_match_in_order() {
    let cmds = vec![
        (s("Firefox"), AppData { icon: s("ff"), command: s("firefox") }),
        (s("Kitty"), AppData { icon: s("k"), command: s("kitty") }),
        (s("Files"), AppData { icon: s("f"), command: s("nautilus") }),
        (s("Fish"), AppData { icon: s("fi"), command: s("fish") }),
    ];
    let (i, tiles) = app_tiles(&cmds, "Apps", "app", 3, "f");
    assert_eq!(i, 6);
    let titles: Vec<&str> = tiles.iter().map(|t| t.title.as_str()).collect();
    assert_eq!(titles, vec!["Firefox", "Files", "Fish"]);
    assert_eq!(tiles[2].icon, "fi");
    let (i, none) = app_tiles(&cmds, "Apps", "app", 3, "zzz");
    assert_eq!(i, 3);
    assert!(none.is_empty());
}

fn entry(cmd: &str) -> ConfigEntry {
    ConfigEntry {
        name: String::new(),
        icon: Some(s("i")),
        icon_class: None,
        command: Some(s(cmd)),
        search_string: s(cmd),
        tag_start: None,
        tag_end: None,
    }
}

#[test]
fn map_keys_name_the_entries() {
    let named = deserialize_named_appdata(vec![(s("Lock"), entry("loginctl lock-session")), (s("Off"), entry("poweroff"))]);
    assert_eq!(named.len(), 2);
    assert_eq!(named[0].name, "Lock");
    assert_eq!(named[1].name, "Off");
    assert_eq!(named[1].command.as_deref(), Some("poweroff"));
}

#[test]
fn launcher_execs_listed_once() {
    let r = raw("command", ArgValue::Null);
    let l = Launcher::from_raw(r, s("command"), LauncherType::Command { execs: vec![Some(s("a")), Some(s("a")), None, Some(s("b"))] }, None);
    assert_eq!(l.get_execs(), Some(vec![s("a"), s("b")]));
}
