use sherlock::bookmarks::{chrome_entries, chromium_bookmarks_path, mozilla_profile_root, BookmarkLauncher, BrowserKind, ChromeBookmark, MozillaSqliteParser};
use sherlock::bulk_text::{AsyncCommandResponse, BulkTextLauncher, ScriptOutcome};
use sherlock::calc::{parse_temp_unit, plural_suffix, Calculator, Currency, CurrencyCode, Length, Measurements, TempUnit, Unit, Volume, Weight};
use sherlock::config::ConfigUnits;
use sherlock::loader::{ArgValue, RawLauncher};
use sherlock::error::SherlockErrorType;
use sherlock::events::{event_for, quote_ids, reads_calendar, teams_event_query, thunderbird_database, DirEntry};
use sherlock::weather::{uses_imperial, weather_texts, wind_arrow, WeatherLauncher};

#[test]
fn weather_codes() {
    assert_eq!(WeatherLauncher::match_weather_code("113"), "weather-clear");
    assert_eq!(WeatherLauncher::match_weather_code("122"), "weather-many-clouds");
    assert_eq!(WeatherLauncher::match_weather_code("395"), "weather-snow-scattered-storm");
    assert_eq!(WeatherLauncher::match_weather_code("296"), "weather-showers-scattered");
    assert_eq!(WeatherLauncher::match_weather_code("999"), "weather-none-available");
}

#[test]
fn weather_texts_follow_units() {
    let (t, i, w) = weather_texts("T", "Miles", "50", "10", "116", "↗", "7", "11");
    assert_eq!(t, "50°F");
    assert_eq!(i, "weather-few-clouds");
    assert_eq!(w, "↗7mph");
    let (t, _, w) = weather_texts("C", "meters", "50", "10", "116", "↓", "7", "11");
    assert_eq!(t, "10°C");
    assert_eq!(w, "↓11km/h");
    assert!(uses_imperial("FT"));
    assert!(!uses_imperial("km"));
    assert_eq!(wind_arrow(0).as_deref(), Some("↑"));
    assert_eq!(wind_arrow(7).as_deref(), Some("↖"));
    assert!(wind_arrow(8).is_none());
}

fn units() -> ConfigUnits {
    ConfigUnits {
        lengths: String::from("Meters"),
        weights: String::from("kg"),
        volumes: String::from("l"),
        temperatures: String::from("C"),
        currency: String::from("usd"),
    }
}

#[test]
fn unit_names() {
    assert!(Length::match_unit("KM") == Some(Unit::Kilometer));
    assert!(Length::match_unit("parsec").is_none());
    assert!(Weight::match_unit("lbs") == Some(Unit::Pound));
    assert!(Volume::match_unit("oz") == Some(Unit::FluidOunce));
    assert!(Currency::unit_exists("EUR"));
    assert!(!Currency::unit_exists("euro"));
    assert!(Currency::match_unit(" Euro ") == Some(CurrencyCode::Eur));
    assert!(Measurements::match_unit("eur", "currencies", false).is_none());
    assert!(Measurements::match_unit("eur", "currencies", true) == Some(Unit::Currency(CurrencyCode::Eur)));
    assert!(Measurements::match_unit("g", "weights", false) == Some(Unit::Gram));
    assert!(Measurements::match_unit("mi", "anything", false) == Some(Unit::Mile));
}

#[test]
fn measurement_queries() {
    let c = Calculator::measurement("5 km to mi", "lengths", &units(), false).unwrap();
    assert_eq!(c.amount, "5");
    assert!(c.from == Unit::Kilometer && c.to == Unit::Mile);
    let c = Calculator::measurement("2.5 ft", "lengths", &units(), false).unwrap();
    assert_eq!(c.amount, "2.5");
    assert!(c.from == Unit::Feet && c.to == Unit::Meter);
    assert!(Calculator::measurement("5 parsec to m", "lengths", &units(), false).is_none());
    assert!(Calculator::measurement("hello", "lengths", &units(), false).is_none());
    assert_eq!(plural_suffix(false, "lengths"), "s");
    assert_eq!(plural_suffix(true, "lengths"), "");
    assert_eq!(plural_suffix(false, "currencies"), "");
}

#[test]
fn temperature_queries() {
    let (v, to) = Calculator::temperature("20 c to f").unwrap();
    assert_eq!(v, "20");
    assert!(to == TempUnit::Fahrenheit);
    let (_, to) = Calculator::temperature("70 fahrenheit").unwrap();
    assert!(to == TempUnit::Celsius);
    assert!(Calculator::temperature("20").is_none());
    assert!(parse_temp_unit("cel") == TempUnit::Celsius);
    assert!(parse_temp_unit("fahr") == TempUnit::Fahrenheit);
    assert!(parse_temp_unit("x") == TempUnit::Celsius);
}

#[test]
fn browsers() {
    assert!(BookmarkLauncher::find_bookmarks("Brave %U").ok() == Some(BrowserKind::Brave));
    assert!(BookmarkLauncher::find_bookmarks("zen-browser").ok() == Some(BrowserKind::Zen));
    let e = BookmarkLauncher::find_bookmarks("lynx").err().unwrap();
    match e.error {
        SherlockErrorType::UnsupportedBrowser(b) => assert_eq!(b, "lynx"),
        _ => panic!("wrong error"),
    }
    assert!(e.traceback.starts_with("The browser \"<i>lynx</i>\" is either not supported"));
    assert_eq!(
        chromium_bookmarks_path(&BrowserKind::Chrome, "/home/u").as_deref(),
        Some("/home/u/.config/google-chrome/Default/Bookmarks")
    );
    assert!(chromium_bookmarks_path(&BrowserKind::Firefox, "/home/u").is_none());
    let (root, prefix, err) = mozilla_profile_root(&BrowserKind::Firefox).unwrap();
    assert_eq!(root, ".mozilla/firefox/");
    assert_eq!(prefix, "firefox");
    assert_eq!(err.traceback, "File does not exist");
    assert_eq!(
        MozillaSqliteParser::new("/p/places.sqlite", "zen", Some("/home/u")).path,
        "/home/u/.cache/sherlock/bookmarks/zen-places.sqlite"
    );
    assert_eq!(MozillaSqliteParser::new("/p/places.sqlite", "zen", None).path, "/p/places.sqlite");
    assert!(MozillaSqliteParser::should_update_cache(false, Some(1), Some(2)));
    assert!(!MozillaSqliteParser::should_update_cache(true, Some(1), Some(2)));
    assert!(MozillaSqliteParser::should_update_cache(true, None, Some(2)));
}

fn node(name: &str, kind: &str, children: Option<Vec<ChromeBookmark>>, url: Option<&str>) -> ChromeBookmark {
    ChromeBookmark { name: name.to_string(), kind: kind.to_string(), children, url: url.map(String::from) }
}

fn bookmark_launcher(args: ArgValue, tag_start: Option<&str>, tag_end: Option<&str>) -> RawLauncher {
    RawLauncher {
        name: Some(String::from("Bookmarks")),
        alias: None,
        tag_start: tag_start.map(String::from),
        tag_end: tag_end.map(String::from),
        display_name: None,
        on_return: None,
        next_content: None,
        kind: String::from("bookmarks"),
        priority: 2,
        exit: true,
        shortcut: true,
        spawn_focus: true,
        is_async: false,
        home: false,
        only_home: false,
        args,
        actions: None,
        add_actions: None,
    }
}

#[test]
fn chrome_bookmark_tree_is_flattened_in_order() {
    let roots = vec![
        node("bar", "folder", Some(vec![
            node("a", "url", None, Some("https://a")),
            node("sub", "folder", Some(vec![node("b", "url", None, Some("https://b"))]), None),
            node("nourl", "url", None, None),
            node("sep", "separator", None, Some("x")),
        ]), None),
        node("c", "url", None, Some("https://c")),
        node("a", "url", None, Some("https://a")),
    ];
    let raw = bookmark_launcher(
        ArgValue::Object(vec![(String::from("icon_class"), ArgValue::Str(String::from("bm")))]),
        Some("<b>"),
        Some("</b>"),
    );
    let e = chrome_entries(&roots, &raw);
    let got: Vec<(String, String, String)> = e.iter().map(|x| (x.name.clone(), x.url.clone(), x.search_string.clone())).collect();
    assert_eq!(got, vec![
        (String::from("a"), String::from("https://a"), String::from("a;https://a")),
        (String::from("b"), String::from("https://b"), String::from("b;https://b")),
        (String::from("c"), String::from("https://c"), String::from("c;https://c")),
    ]);
    for x in &e {
        assert_eq!(x.icon, None);
        assert_eq!(x.desktop_file, None);
        assert_eq!(x.icon_class.as_deref(), Some("bm"));
        assert_eq!(x.tag_start.as_deref(), Some("<b>"));
        assert_eq!(x.tag_end.as_deref(), Some("</b>"));
    }
}

#[test]
fn chrome_parse_single_bookmark() {
    let roots = vec![node("B", "folder", Some(vec![
        node("Rust", "url", None, Some("https://rust-lang.org")),
        node("X", "url", None, None),
    ]), None)];
    let raw = bookmark_launcher(ArgValue::Object(vec![]), None, None);
    let e = chrome_entries(&roots, &raw);
    assert_eq!(e.len(), 1);
    assert_eq!(e[0].name, "Rust");
    assert_eq!(e[0].url, "https://rust-lang.org");
    assert_eq!(e[0].search_string, "Rust;https://rust-lang.org");
    assert_eq!(e[0].icon, None);
    assert_eq!(e[0].icon_class, None);
    assert_eq!(e[0].desktop_file, None);
    assert_eq!(e[0].tag_start, None);
    assert_eq!(e[0].tag_end, None);
}

#[test]
fn bulk_text_command() {
    let l = BulkTextLauncher {
        icon: String::new(),
        executable: String::from("~/bin/wiki.sh"),
        args: String::from("--query {keyword} --n 3"),
    };
    let (path, argv) = l.command("rust lang", Some("/home/u")).unwrap();
    assert_eq!(path, "/home/u/bin/wiki.sh");
    assert_eq!(argv, vec!["--query", "rust", "lang", "--n", "3"].into_iter().map(String::from).collect::<Vec<_>>());
    assert!(l.command("   ", Some("/home/u")).is_none());
    assert!(l.command("x", None).is_none());
    let abs = BulkTextLauncher { icon: String::new(), executable: String::from("/usr/bin/s"), args: String::new() };
    let (path, argv) = abs.command("", Some("/home/u")).unwrap();
    assert_eq!(path, "/usr/bin/s");
    assert_eq!(argv, vec![String::new()]);
}

#[test]
fn bulk_text_responses() {
    let r = BulkTextLauncher::response(ScriptOutcome::SpawnFailed(String::from("ENOENT")));
    assert_eq!(r.title.as_deref(), Some("Failed to execute script."));
    assert_eq!(r.content.as_deref(), Some("Error: ENOENT"));
    let r = BulkTextLauncher::response(ScriptOutcome::Failed(String::from("ExitStatus(1)")));
    assert_eq!(r.content.as_deref(), Some("Status: ExitStatus(1)"));
    let r = BulkTextLauncher::response(ScriptOutcome::TimedOut);
    assert_eq!(r.content.as_deref(), Some("Timeout exceeded."));
    let r = BulkTextLauncher::response(ScriptOutcome::WaitFailed);
    assert_eq!(r.content.as_deref(), Some("Error occurred while running the process: {:?}"));
    let r = BulkTextLauncher::response(ScriptOutcome::Succeeded(None));
    assert!(r.title.is_none() && r.content.is_none());
    let mut a = AsyncCommandResponse::new();
    a.title = Some(String::from("t"));
    let r = BulkTextLauncher::response(ScriptOutcome::Succeeded(Some(a)));
    let (t, c, n, acts) = r.split_params();
    assert_eq!(t.as_deref(), Some("t"));
    assert!(c.is_none() && n.is_none() && acts.is_none());
}

#[test]
fn teams_events() {
    assert!(reads_calendar("thunderbird"));
    assert!(!reads_calendar("evolution"));
    assert_eq!(quote_ids(&vec![String::from("a"), String::from("b")]), "'a', 'b'");
    assert_eq!(quote_ids(&vec![]), "");
    assert!(teams_event_query("", "now", "-5 minutes", "+15 minutes").is_none());
    let q = teams_event_query("'a'", "now", "-5 minutes", "+15 minutes").unwrap();
    assert!(q.contains("WHERE id IN ('a')"));
    assert!(q.contains("strftime('%s', 'now', '-5 minutes') * 1000000 AND strftime('%s', 'now', '+15 minutes') * 1000000"));
    let entries = vec![
        DirEntry { path: String::from("/h/.thunderbird/x.default"), is_dir: true },
        DirEntry { path: String::from("/h/.thunderbird/y.default-release"), is_dir: false },
        DirEntry { path: String::from("/h/.thunderbird/z.default-release"), is_dir: true },
    ];
    assert_eq!(
        thunderbird_database(&entries).as_deref(),
        Some("/h/.thunderbird/z.default-release/calendar-data/cache.sqlite")
    );
    let meetings = vec![(String::from("a"), String::from("u1")), (String::from("a"), String::from("u2"))];
    let e = event_for(&meetings, "a", String::from("Standup"), String::from("09:00")).unwrap();
    assert_eq!(e.meeting_url, "u2");
    assert!(event_for(&meetings, "b", String::new(), String::new()).is_none());
}

#[test]
fn forex_symbol_names_currency() {
    assert_eq!(Currency::forex_code("FX_IDC:EURUSD"), Some(String::from("eur")));
    assert_eq!(Currency::forex_code("FX_IDC:JpYUSD"), Some(String::from("jpy")));
    assert_eq!(Currency::forex_code("EURUSD"), None);
}
