use sherlock::attrs::{get_attrs_map, plan_execution, settle_exit, ExecAction};
use sherlock::command::{applaunch, command_launch, engine_url_template, teamslaunch, websearch, websearch_line};
use sherlock::error::SherlockErrorType;

fn attrs(pairs: &[(&str, &str)]) -> sherlock::attrs::AttrMap {
    get_attrs_map(pairs.iter().map(|(k, v)| (*k, Some(*v))).collect())
}

#[test]
fn attrs_map_drops_missing_values_and_later_keys_win() {
    let m = get_attrs_map(vec![("method", Some("app_launcher")), ("exec", None), ("method", Some("command"))]);
    assert_eq!(m.get("method").map(|s| s.as_str()), Some("command"));
    assert!(m.get("exec").is_none());
}

#[test]
fn app_launcher_plan_counts_its_command() {
    let a = attrs(&[("method", "app_launcher"), ("exec", "firefox %u"), ("term", "true")]);
    let plan = plan_execution(&a, None).unwrap();
    match &plan.action {
        ExecAction::AppLaunch { cmd, terminal } => {
            assert_eq!(cmd, "firefox %u");
            assert!(*terminal);
        }
        _ => panic!("wrong action"),
    }
    assert!(plan.exit);
    assert_eq!(plan.count_always.as_deref(), Some("firefox %u"));
}

#[test]
fn exit_attribute_keeps_window_open() {
    let a = attrs(&[("method", "app_launcher"), ("exec", "x"), ("exit", "false")]);
    let plan = plan_execution(&a, None).unwrap();
    assert!(!plan.exit);
    assert!(!settle_exit(&plan, true, None));
    assert!(settle_exit(&plan, true, Some(true)));
}

#[test]
fn web_search_by_keyword_counts_the_engine() {
    let a = attrs(&[("method", "web_launcher"), ("keyword", "rust lang"), ("engine", "google")]);
    let plan = plan_execution(&a, None).unwrap();
    match &plan.action {
        ExecAction::WebSearch { engine, query } => {
            assert_eq!(engine, "google");
            assert_eq!(query, "rust lang");
        }
        _ => panic!("wrong action"),
    }
    assert_eq!(plan.count_always.as_deref(), Some("websearch-google"));
    assert!(!settle_exit(&plan, false, None));
}

#[test]
fn unknown_method_prints_a_note() {
    let a = attrs(&[("method", "frobnicate")]);
    let plan = plan_execution(&a, None).unwrap();
    match &plan.action {
        ExecAction::Print(s) => assert_eq!(s, "Return method \"frobnicate\" not recognized"),
        _ => panic!("wrong action"),
    }
}

#[test]
fn no_method_no_plan() {
    let a = attrs(&[("exec", "ls")]);
    assert!(plan_execution(&a, None).is_none());
}

#[test]
fn copy_uses_configured_field() {
    let a = attrs(&[("method", "copy"), ("title", "hello"), ("result", "r")]);
    let plan = plan_execution(&a, Some("title")).unwrap();
    match &plan.action {
        ExecAction::Copy(s) => assert_eq!(s, "hello"),
        _ => panic!("wrong action"),
    }
}

#[test]
fn kill_process_reads_both_ids() {
    let a = attrs(&[("method", "kill-process"), ("parent-pid", "12"), ("child-pid", "-3")]);
    let plan = plan_execution(&a, None).unwrap();
    match plan.action {
        ExecAction::KillProcess { parent, child } => {
            assert_eq!(parent, 12);
            assert_eq!(child, -3);
        }
        _ => panic!("wrong action"),
    }
}

#[test]
fn next_page_without_content() {
    let a = attrs(&[("method", "next")]);
    let plan = plan_execution(&a, None).unwrap();
    match &plan.action {
        ExecAction::NextPage(s) => assert_eq!(s, "No next_content provided..."),
        _ => panic!("wrong action"),
    }
    assert!(!plan.exit);
}

#[test]
fn command_lines_split_on_ampersand() {
    let lines = command_launch("echo {keyword} & ls  & ", "hi", Some("env"), Some("--x"));
    assert_eq!(lines, vec!["env echo hi --x".to_string(), "env ls --x".to_string()]);
}

#[test]
fn command_line_turns_escaped_quotes_into_single_quotes() {
    let lines = command_launch("say \\\"hi\\\"", "", None, None);
    assert_eq!(lines, vec!["say 'hi'".to_string()]);
}

#[test]
fn engines_have_templates() {
    assert_eq!(engine_url_template("google"), "https://www.google.com/search?q={keyword}");
    assert_eq!(engine_url_template("plain"), "{keyword}");
    assert_eq!(engine_url_template("https://x/?q={keyword}"), "https://x/?q={keyword}");
}

#[test]
fn websearch_fills_browser_command() {
    assert_eq!(
        websearch_line("duckduckgo", "a b", "firefox %u"),
        "firefox https://duckduckgo.com/?q=a+b"
    );
    assert_eq!(websearch_line("bing", "x", "brave"), "brave https://www.bing.com/search?q=x");
    let lines = websearch("google", "q", "firefox %u", None, None);
    assert_eq!(lines, vec!["firefox https://www.google.com/search?q=q".to_string()]);
}

#[test]
fn applaunch_drops_field_codes_and_quotes() {
    let argv = applaunch("\"/usr/bin/app\" --new %U", false, None, "kitty", None).unwrap();
    assert_eq!(argv, vec!["/usr/bin/app".to_string(), "--new".to_string()]);
    let argv = applaunch("htop", true, Some("nice"), "kitty -e", Some("-d 1")).unwrap();
    assert_eq!(
        argv,
        vec!["nice", "kitty", "-e", "htop", "-d", "1"].into_iter().map(String::from).collect::<Vec<_>>()
    );
    assert!(applaunch("  %f ", false, None, "", None).is_none());
}

#[test]
fn teamslaunch_fills_meeting() {
    let argv = teamslaunch("teams-for-linux --url {meeting_url} %u", "https://m").unwrap();
    assert_eq!(argv, vec!["teams-for-linux", "--url", "https://m"].into_iter().map(String::from).collect::<Vec<_>>());
    let err = teamslaunch("   ", "x").unwrap_err();
    assert!(matches!(err.error, SherlockErrorType::CommandExecutionError(_)));
}
