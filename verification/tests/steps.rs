use sherlock::api::PipedData;
use sherlock::calc::Currency;
use sherlock::command::{command_launch, command_segments, run_step, RunStep};
use sherlock::error::SherlockErrorType;
use sherlock::process::ProcessLauncher;

fn s(v: &str) -> String {
    v.to_string()
}

#[test]
fn command_segments_match_lines() {
    let segs = command_segments(" notify-send {keyword} & & echo \\\"x\\\" ", "hi");
    assert_eq!(segs, vec![s("notify-send hi"), s("echo \\\"x\\\"")]);
    let lines = command_launch(" notify-send {keyword} & & echo \\\"x\\\" ", "hi", Some("pre"), Some("-f"));
    assert_eq!(lines, vec![s("pre notify-send hi -f"), s("pre echo 'x' -f")]);
}

#[test]
fn run_stops_at_first_failure() {
    let segs = vec![s("a"), s("b")];
    assert!(matches!(run_step(&segs, 0, None), RunStep::Next(1)));
    assert!(matches!(run_step(&segs, 1, None), RunStep::Finished));
    match run_step(&segs, 0, Some(s("not found"))) {
        RunStep::Failed(e) => {
            assert!(matches!(e.error, SherlockErrorType::CommandExecutionError(ref c) if c == "a"));
            assert_eq!(e.traceback, "not found");
        }
        _ => panic!("expected a failure"),
    }
}

#[test]
fn kill_run_names_child_then_parent() {
    let subjects = ProcessLauncher::kill_subjects((10, 12));
    assert_eq!(subjects, vec![s("Kill process \"12\""), s("Kill process \"10\"")]);
    assert_eq!(ProcessLauncher::kill_subjects((7, 7)), vec![s("Kill process \"7\"")]);
    match run_step(&subjects, 0, Some(s("EPERM"))) {
        RunStep::Failed(e) => {
            assert!(matches!(e.error, SherlockErrorType::CommandExecutionError(ref c) if c == "Kill process \"12\""))
        }
        _ => panic!("expected a failure"),
    }
}

#[test]
fn piped_data_decisions() {
    let d = PipedData::new(b"plain\ntext").unwrap();
    assert!(d.settings.is_none());
    assert_eq!(d.elements.as_deref(), Some("plain\ntext"));
    assert!(PipedData::new(b"[1]").is_none());
    let d = PipedData::new(b"{\"settings\":[\"Show\"],\"elements\":[]}").unwrap();
    assert_eq!(d.settings.as_deref(), Some("[\"Show\"]"));
    assert_eq!(d.elements.as_deref(), Some("{\"elements\":[]}"));
    let d = PipedData::new(b"{\"settings\":[]}").unwrap();
    assert_eq!(d.settings.as_deref(), Some("[]"));
    assert!(d.elements.is_none());
    let d = PipedData::new(b"{\"elements\":[1]}").unwrap();
    assert!(d.settings.is_none());
    assert_eq!(d.elements.as_deref(), Some("{\"elements\":[1]}"));
}

#[test]
fn all_rates_needed() {
    let codes = ["eur", "jpy", "gbp", "aud", "cad", "chf", "cny", "nzd", "sek", "nok", "mxn", "sgd", "hkd", "krw"];
    let mut keys: Vec<String> = codes.iter().map(|c| s(c)).collect();
    assert!(Currency::has_all_rates(&keys));
    keys.retain(|k| k != "krw");
    assert!(!Currency::has_all_rates(&keys));
}
