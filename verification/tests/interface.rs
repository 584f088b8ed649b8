use sherlock::api::{
    error_view_active, mode_step, page_transition, pages_to_remove, pipe_request, server_requests,
    startup_requests, ApiCall, ModeStep, PipeInput, PipedData, RequestQueue, SherlockModes,
};
use sherlock::audio::{cover_cache_path, cover_name, cover_source, current_player, CoverSource};
use sherlock::browser::{browser_file, exec_line, no_default_browser};
use sherlock::cache::{cache_usable, refresh_plan, CachedApp};
use sherlock::error::{SherlockError, SherlockErrorType};
use sherlock::launchers::{clipboard_launcher, clipboard_text, extract_key, get_terminal, ApiGet, FetchOutcome};
use sherlock::nav::{
    emoji_compare, emoji_filter, execute_target, focus_first, focus_first_changed, focus_next,
    focus_offset, focus_prev, grid_focus_first, grid_key, grid_row_offset, selected_item, ConfKeys,
    GridAction, GridOrder, KEY_BACKSPACE, KEY_DOWN, KEY_RETURN, KEY_UP,
};
use sherlock::widgets::{IconComp, IconView, ShortCut, ShortcutBox, StackHelpers, StackPages};

fn s(v: &str) -> String {
    v.to_string()
}

#[test]
fn modes_and_calls_are_written_for_the_log() {
    assert_eq!(SherlockModes::Input(true).display(), "Input:Obfuscated?true");
    assert_eq!(SherlockModes::Pipe(s("x")).display(), "PipeView");
    assert_eq!(ApiCall::Obfuscate(false).display(), "setting.Obfuscate:false");
    assert_eq!(ApiCall::Socket(None).display(), "action.Socket:None");
    assert_eq!(ApiCall::Socket(Some(s("/tmp/a"))).display(), "action.Socket:Some(\"/tmp/a\")");
    assert_eq!(ApiCall::SwitchMode(SherlockModes::Error).display(), "action.SwitchMode:ErrorView");
    assert_eq!(ApiCall::Pipe(s("p")).display(), "action.ProcessPipe:p");
    let e = SherlockError { error: SherlockErrorType::ClipboardError, traceback: s("tb") };
    assert_eq!(ApiCall::SherlockError(e).display(), "action.InsertError:tb");
}

#[test]
fn queue_keeps_what_was_not_carried_out() {
    let mut q = RequestQueue::new();
    q.await_request(ApiCall::Show);
    q.await_request(ApiCall::Clear);
    q.await_request(ApiCall::InputOnly);
    q.flush(&vec![true, false, true]);
    assert_eq!(q.queue.len(), 1);
    assert!(matches!(q.queue[0], ApiCall::Clear));
    q.flush(&vec![true]);
    assert!(q.queue.is_empty());
}

#[test]
fn pages_and_requests() {
    assert_eq!(page_transition("search-page", "display-raw"), "search-page->display-raw");
    assert_eq!(
        pages_to_remove(&vec![s("search-page"), s("emoji-page"), s("error-page"), s("display-raw")], "display-raw"),
        vec![s("emoji-page")]
    );
    assert!(matches!(pipe_request(s("e"), true), ApiCall::DisplayRaw(_)));
    assert!(matches!(pipe_request(s("e"), false), ApiCall::Pipe(_)));
    assert!(error_view_active(false, false, false, true));
    assert!(!error_view_active(false, true, false, true));
    assert!(!error_view_active(true, false, true, true));
    let r = startup_requests(PipeInput::Empty, true);
    assert_eq!(r.len(), 2);
    assert!(matches!(r[0], ApiCall::SwitchMode(SherlockModes::Search)));
    assert!(matches!(r[1], ApiCall::SwitchMode(SherlockModes::Error)));
    let d = PipedData { settings: Some(vec![ApiCall::InputOnly]), elements: Some(s("[]")) };
    let r = startup_requests(PipeInput::Data(Some(d)), false);
    assert_eq!(r.len(), 2);
    assert!(matches!(r[0], ApiCall::InputOnly));
    assert!(matches!(r[1], ApiCall::SwitchMode(SherlockModes::Pipe(_))));
    let r = server_requests(None, Some(PipedData { settings: None, elements: Some(s("x")) }), true);
    assert!(matches!(r[0], ApiCall::DisplayRaw(_)));
    assert!(server_requests(None, None, false).is_empty());
    assert_eq!(server_requests(Some(ApiCall::Show), None, false).len(), 1);
    assert!(matches!(mode_step(SherlockModes::Input(true)), ModeStep::SpawnInput(true)));
    assert!(matches!(mode_step(SherlockModes::Search), ModeStep::ShowSearch));
}

#[test]
fn media_player_and_cover() {
    let names = vec![s("org.freedesktop.DBus"), s("org.mpris.MediaPlayer2.spotify"), s("org.mpris.MediaPlayer2.vlc")];
    assert_eq!(current_player(&names).as_deref(), Some("org.mpris.MediaPlayer2.spotify"));
    assert!(current_player(&vec![]).is_none());
    assert_eq!(cover_name("https://i.scdn.co/image/ab67"), "ab67");
    assert_eq!(cover_name("noslash"), "noslash");
    assert_eq!(cover_cache_path("/home/u", "ab67"), "/home/u/.sherlock/mpris-cache/ab67");
    match cover_source("file://file:///music/a.png") {
        CoverSource::File(p) => assert_eq!(p, "/music/a.png"),
        _ => panic!("file expected"),
    }
    assert!(matches!(cover_source("https://x/a.png"), CoverSource::Download(_)));
}

#[test]
fn default_browser() {
    let files = vec![s("/usr/share/applications/chromium.desktop"), s("/usr/share/applications/firefox.desktop")];
    assert_eq!(browser_file(&files, "firefox.desktop").as_deref(), Some("/usr/share/applications/firefox.desktop"));
    assert!(browser_file(&files, "fox.desktop").is_none());
    let lines = vec![s("[Desktop Entry]"), s("Name=Firefox"), s("Exec=firefox %u"), s("Exec=other")];
    assert_eq!(exec_line(&lines).as_deref(), Some("firefox %u"));
    assert!(exec_line(&vec![s("Name=x")]).is_none());
    let e = no_default_browser(String::new());
    assert!(matches!(e.error, SherlockErrorType::EnvVarNotFoundError(_)));
}

#[test]
fn cache_refresh() {
    assert!(cache_usable(Some(1), None, Some(2), Some(5)));
    assert!(!cache_usable(Some(5), None, None, Some(5)));
    let apps = vec![
        CachedApp { desktop_file: Some(s("/a.desktop")), modified: Some(1) },
        CachedApp { desktop_file: Some(s("/b.desktop")), modified: Some(9) },
        CachedApp { desktop_file: Some(s("/gone.desktop")), modified: Some(1) },
        CachedApp { desktop_file: None, modified: None },
        CachedApp { desktop_file: Some(s("/c.desktop")), modified: None },
    ];
    let files = vec![s("/a.desktop"), s("/b.desktop"), s("/c.desktop"), s("/new.desktop")];
    let (keep, reread) = refresh_plan(&apps, &files, Some(5));
    assert_eq!(keep, vec![true, false, false, false, true]);
    assert_eq!(reread, vec![s("/b.desktop"), s("/c.desktop"), s("/new.desktop")]);
}

#[test]
fn api_tiles_and_clipboard() {
    assert_eq!(extract_key("{\"title\":\"x\"}", "\"title\":\"([^\"]*)\"").as_deref(), Some("x"));
    assert_eq!(extract_key("nothing", "k(\\d)").as_deref(), Some("Pattern k(\\d) not found."));
    assert_eq!(extract_key("a", "(b)?a").as_deref(), Some(""));
    assert!(extract_key("a", "(").is_none());
    let api = ApiGet {
        alias: None,
        method: s("m"),
        uuid: s("u"),
        name: s("n"),
        url: s("https://x/?q={}"),
        title_key: s("t=(\\w+)"),
        body_key: s("b=(\\w+)"),
        icon: s("i"),
        priority: 1,
        is_async: true,
    };
    assert_eq!(api.request_url("rust"), "https://x/?q=rust");
    let (t, b) = api.result(FetchOutcome::Body(s("t=one b=two"))).unwrap();
    assert_eq!((t.as_str(), b.as_str()), ("one", "two"));
    let (t, b) = api.result(FetchOutcome::TimedOut).unwrap();
    assert_eq!((t.as_str(), b.as_str()), ("Network request timed out.", ""));
    let (t, b) = api.result(FetchOutcome::RequestFailed(s("dns"))).unwrap();
    assert_eq!((t.as_str(), b.as_str()), ("Network request failed.", "Error: dns"));
    let (t, _) = api.result(FetchOutcome::BodyFailed(s("eof"))).unwrap();
    assert_eq!(t, "Failed to read response body.");
    assert_eq!(clipboard_text(Some(s("  x \n"))), "x");
    assert_eq!(clipboard_text(None), "");
    assert!(clipboard_launcher(String::new(), None).is_none());
    assert_eq!(clipboard_launcher(s("x"), None).unwrap().clipboard_content, "x");
}

#[test]
fn terminal_choice() {
    assert_eq!(get_terminal(Some((s("foot"), true)), &vec![]).as_deref(), Some("foot"));
    let mut installed = vec![false; 20];
    installed[2] = true;
    installed[5] = true;
    assert_eq!(get_terminal(Some((s("foot"), false)), &installed).as_deref(), Some("xterm"));
    assert!(get_terminal(None, &vec![false; 20]).is_none());
}

#[test]
fn list_navigation() {
    assert_eq!(focus_next(u32::MAX, 3), None);
    assert_eq!(focus_next(0, 3), Some(1));
    assert_eq!(focus_next(2, 3), Some(2));
    assert_eq!(focus_prev(0), 0);
    assert_eq!(focus_prev(2), 1);
    assert_eq!(focus_first(4, &vec![Some(false), Some(true), Some(false)]), Some((1, true)));
    assert_eq!(focus_first(0, &vec![Some(false), None, Some(true)]), Some((1, true)));
    assert_eq!(focus_first(3, &vec![Some(false), Some(false), Some(false)]), Some((3, false)));
    assert_eq!(focus_first(0, &vec![]), None);
    assert!(focus_first_changed(false, "pm", Some(" pm ")));
    assert!(focus_first_changed(false, "all", None));
    assert!(!focus_first_changed(false, "pm", Some("all")));
    assert!(grid_focus_first(3, 5));
    assert!(!grid_focus_first(0, 5));
    assert_eq!(focus_offset(2, 10, 5), Some(7));
    assert_eq!(focus_offset(2, 10, 50), Some(9));
    assert_eq!(focus_offset(2, 10, -5), Some(0));
    assert_eq!(focus_offset(u32::MAX, 10, 1), Some(0));
    assert_eq!(focus_offset(1, 10, i32::MAX), None);
    assert_eq!(grid_row_offset(260), 5);
    assert_eq!(grid_row_offset(2000), 10);
    assert_eq!(grid_row_offset(-120), -2);
    assert_eq!(execute_target(1, &vec![Some(true), Some(false), None, Some(true)]), Some(3));
    assert_eq!(execute_target(4, &vec![Some(true)]), None);
    assert_eq!(selected_item(Some(2), 0), None);
    assert_eq!(selected_item(Some(2), 3), Some(2));
}

#[test]
fn emoji_grid_keys() {
    let binds = ConfKeys { prev: Some(0x6b), prev_mod: Some(4), next: Some(0x6a), next_mod: None };
    assert!(grid_key(false, KEY_UP, 0, &binds, true) == GridAction::Pass);
    assert!(grid_key(true, KEY_UP, 0, &binds, true) == GridAction::RowUp);
    assert!(grid_key(true, KEY_DOWN, 0, &binds, true) == GridAction::RowDown);
    assert!(grid_key(true, 0x6b, 4 | 1, &binds, true) == GridAction::Prev);
    assert!(grid_key(true, 0x6b, 1, &binds, true) == GridAction::Pass);
    assert!(grid_key(true, 0x6a, 0, &binds, true) == GridAction::Next);
    assert!(grid_key(true, KEY_BACKSPACE, 0, &binds, true) == GridAction::Leave);
    assert!(grid_key(true, KEY_BACKSPACE, 0, &binds, false) == GridAction::Pass);
    assert!(grid_key(true, KEY_RETURN, 0, &binds, false) == GridAction::Activate);
}

#[test]
fn emoji_grid_filter_and_order() {
    let titles: Vec<String> = (0..100).map(|i| format!("smile {}", i)).collect();
    let shown = emoji_filter(&titles, "smile");
    assert_eq!(shown.iter().filter(|b| **b).count(), 80);
    assert!(shown[79] && !shown[80]);
    let shown = emoji_filter(&vec![s("cat"), s("dog")], "do");
    assert_eq!(shown, vec![false, true]);
    assert!(emoji_compare("ab", "abc", "") == GridOrder::Less);
    assert!(emoji_compare("abc", "ab", "") == GridOrder::Greater);
    assert!(emoji_compare("ab", "abc", "a") == GridOrder::Equal);
}

#[test]
fn widgets() {
    let mut img = IconView { file: None, icon_name: None, visible: true, classes: vec![] };
    img.set_icon(None, Some("tile-icon"), Some("/icons/a.png"));
    assert_eq!(img.file.as_deref(), Some("/icons/a.png"));
    img.set_icon(Some("firefox"), Some("tile-icon"), None);
    assert_eq!(img.icon_name.as_deref(), Some("firefox"));
    assert_eq!(img.classes, vec![s("tile-icon")]);
    img.set_icon(None, None, None);
    assert!(!img.visible);
    let mut b = ShortcutBox { visible: false, modifier_label: Some(String::new()), index_label: Some(String::new()) };
    assert_eq!(b.apply_shortcut(3, "ctrl"), 1);
    assert!(b.visible);
    assert_eq!(b.index_label.as_deref(), Some("3"));
    assert_eq!(b.modifier_label.as_deref(), Some("ctrl"));
    assert_eq!(b.apply_shortcut(6, "alt"), 0);
    assert_eq!(b.remove_shortcut(), 1);
    assert_eq!(b.remove_shortcut(), 0);
    let pages = StackPages { names: vec![Some(s("search-page")), None, Some(s("error-page"))] };
    assert_eq!(pages.get_page_names(), vec![s("search-page"), s("error-page")]);
}

#[test]
fn emoji_order_uses_edit_distance_to_empty_query() {
    assert!(emoji_compare("grinning face", "cat", "") == GridOrder::Greater);
    assert!(emoji_compare("dog", "cat", "") == GridOrder::Equal);
}
