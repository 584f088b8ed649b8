use sherlock::desktop::{parse_desktop_entry, ApplicationAction, SherlockAlias};
use sherlock::ignore::{ignore_patterns, should_ignore};
use sherlock::search::SherlockSearch;
use sherlock::pipe::{finish_elements, pipe_element, pipe_lines, PipeLine, PipedElements};

fn lines(s: &str) -> Vec<String> {
    s.lines().map(String::from).collect()
}

#[test]
fn desktop_entry_with_action() {
    let text = "[Desktop Entry]\nName=Firefox\nExec=firefox %u\nIcon=firefox\nKeywords=web;browser\n\n[Desktop Action new-window]\nName=New Window\nExec=firefox --new-window %u\n[Desktop Action private]\nName=Private\n";
    let app = parse_desktop_entry(&lines(text), &vec![], None).unwrap();
    assert_eq!(app.name, "Firefox");
    assert_eq!(app.command.as_deref(), Some("firefox %u"));
    assert_eq!(app.icon.as_deref(), Some("firefox"));
    assert_eq!(app.search_string, "Firefox;web;browser");
    assert_eq!(app.actions.len(), 1);
    assert_eq!(app.actions[0].name.as_deref(), Some("New Window"));
    assert_eq!(app.actions[0].icon.as_deref(), Some("firefox"));
}

#[test]
fn pending_action_at_end_is_not_kept() {
    let text = "[Desktop Entry]\nName=A\n[Desktop Action x]\nName=X\nExec=x\n";
    let app = parse_desktop_entry(&lines(text), &vec![], None).unwrap();
    assert!(app.actions.is_empty());
    let full = "[Desktop Entry]\nName=A\nIcon=a\n[Desktop Action x]\nName=X\nExec=x\nIcon=i\nName=ignored\n";
    let app = parse_desktop_entry(&lines(full), &vec![], None).unwrap();
    assert_eq!(app.actions.len(), 1);
    assert_eq!(app.actions[0].icon.as_deref(), Some("i"));
}

#[test]
fn hidden_entry_is_dropped() {
    let text = "[Desktop Entry]\nName=Hidden\nNoDisplay=TRUE\n";
    assert!(parse_desktop_entry(&lines(text), &vec![], None).is_none());
}

#[test]
fn ignored_entry_is_dropped() {
    let patterns = ignore_patterns(&vec![String::from("Fire*")]);
    assert_eq!(patterns, vec![String::from("fire*")]);
    let text = "[Desktop Entry]\nName=Firefox\nExec=firefox\n";
    assert!(parse_desktop_entry(&lines(text), &patterns, None).is_none());
    assert!(should_ignore(&patterns, "FIREFOX"));
    assert!(!should_ignore(&patterns, "Chromium"));
}

#[test]
fn broken_glob_patterns_match_nothing() {
    assert!(!should_ignore(&vec![String::from("[")], "["));
}

#[test]
fn alias_overrides_name_and_keywords() {
    let alias = SherlockAlias {
        name: Some(String::from("Browser")),
        icon: None,
        command: Some(String::from("firefox -P work")),
        keywords: Some(String::from("internet")),
    };
    let text = "[Desktop Entry]\nName=Firefox\nExec=firefox\nIcon=ff\n";
    let app = parse_desktop_entry(&lines(text), &vec![], Some(alias)).unwrap();
    assert_eq!(app.name, "Browser");
    assert_eq!(app.command.as_deref(), Some("firefox -P work"));
    assert_eq!(app.icon.as_deref(), Some("ff"));
    assert_eq!(app.search_string, "Browser;internet");
}

#[test]
fn application_action_validity() {
    let mut a = ApplicationAction::new("app_launcher");
    assert!(!a.is_valid());
    a.name = Some(String::from("x"));
    a.command = Some(String::from("y"));
    assert!(a.is_valid());
    assert!(!a.is_full());
    a.icon = Some(String::from("z"));
    assert!(a.is_full());
    assert_eq!(a.duplicate().method, "app_launcher");
}

#[test]
fn fuzzy_match_keeps_order_of_pattern_characters() {
    let s = String::from("Firefox Web Browser");
    assert!(s.fuzzy_match("fire"));
    assert!(s.fuzzy_match("FFX"));
    assert!(!s.fuzzy_match("xf"));
    assert!(s.fuzzy_match(""));
    assert!(s.fuzzy_match("Firefox Web Browser"));
}

#[test]
fn fuzzy_match_stops_at_semicolons() {
    let s = String::from("abc;xyz");
    assert!(!s.fuzzy_match("cx"));
    assert!(s.fuzzy_match("c;x"));
}

#[test]
fn piped_element_searches_title_then_description() {
    let mut e = element(Some("Alpha"), Some("Beta"));
    assert!(e.fuzzy_match("alp"));
    assert!(!e.fuzzy_match("bet"));
    e.title = None;
    assert!(e.fuzzy_match("bet"));
    e.description = None;
    assert!(!e.fuzzy_match(""));
}

fn element(title: Option<&str>, description: Option<&str>) -> PipedElements {
    PipedElements {
        title: title.map(String::from),
        description: description.map(String::from),
        icon: None,
        icon_size: None,
        result: Some(String::from("r\u{7}é\tok\n")),
        binary: None,
        method: None,
        field: None,
        hidden: None,
        exit: false,
    }
}

#[test]
fn clean_drops_control_and_non_ascii() {
    let mut e = element(Some("a\u{1b}b"), None);
    e.clean();
    assert_eq!(e.title.as_deref(), Some("ab"));
    assert_eq!(e.result.as_deref(), Some("r\tok\n"));
}

#[test]
fn finish_elements_sets_default_method() {
    let mut v = vec![element(Some("a"), None), element(Some("b"), None)];
    v[1].method = Some(String::from("copy"));
    finish_elements(&mut v, Some("print"));
    assert_eq!(v[0].method.as_deref(), Some("print"));
    assert_eq!(v[1].method.as_deref(), Some("copy"));
}

#[test]
fn piped_lines_are_text_or_bytes() {
    let mut buf = b"one\0icon\x1fa,b\ntwo\n".to_vec();
    buf.extend_from_slice(&[0xff, 0xfe, b'\n']);
    buf.extend_from_slice(b"last");
    let ls = pipe_lines(&buf);
    assert_eq!(ls.len(), 4);
    match &ls[0] {
        PipeLine::Text { name, icons } => {
            assert_eq!(name, "one");
            assert_eq!(icons, &vec![String::from("a"), String::from("b\n")]);
        }
        _ => panic!("text expected"),
    }
    match &ls[1] {
        PipeLine::Text { name, icons } => {
            assert_eq!(name, "two\n");
            assert!(icons.is_empty());
        }
        _ => panic!("text expected"),
    }
    match &ls[2] {
        PipeLine::Binary(b) => assert_eq!(b, &vec![0xff, 0xfe, b'\n']),
        _ => panic!("bytes expected"),
    }
    let e = pipe_element(&ls[3], Some(String::from("i")), Some("f"));
    assert_eq!(e.title.as_deref(), Some("last"));
    assert_eq!(e.result.as_deref(), Some("last"));
    assert_eq!(e.icon.as_deref(), Some("i"));
    assert_eq!(e.field.as_deref(), Some("f"));
    assert!(e.exit);
}
