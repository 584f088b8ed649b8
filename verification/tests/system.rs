use std::collections::HashMap;

use sherlock::counter::{CountMap, CounterReader, JsonCache};
use sherlock::daemon::{
    daemon_message, decode_frame, encode_frame, frame_len, instance_messages, is_exit_answer,
    pipe_socket_path, utf8_lossy, MessageBuffer, SizedMessage,
};
use sherlock::error::SherlockErrorType;
use sherlock::lock::{after_probe, ensure_single_instance, LockCreate, LockFile, LockPresence, LockStep, ProbeAction};
use sherlock::process::{group_processes, ProcInfo, ProcStat, ProcessLauncher};

fn stat(pid: i32, ppid: i32, tty_nr: i32) -> ProcStat {
    ProcStat { pid, ppid, tty_nr }
}

#[test]
fn child_of_init_listed_under_its_own_name() {
    let mut names = HashMap::new();
    names.insert(10, String::from("app"));
    let out = group_processes(names, &vec![stat(10, 1, 0)]);
    assert_eq!(out, vec![((10, 10), String::from("app"))]);
}

#[test]
fn terminal_child_names_its_parent() {
    let mut names = HashMap::new();
    names.insert(10, String::from("kitty"));
    names.insert(11, String::from("htop"));
    // Read last to first: 11 (on a terminal, parent 10) first, then 10.
    let out = group_processes(names, &vec![stat(10, 1, 0), stat(11, 10, 34816)]);
    assert_eq!(out, vec![((10, 11), String::from("htop"))]);
}

#[test]
fn names_are_used_once() {
    let mut names = HashMap::new();
    names.insert(5, String::from("a"));
    let out = group_processes(names, &vec![stat(5, 1, 0), stat(5, 1, 0)]);
    assert_eq!(out.len(), 1);
}

#[test]
fn process_launcher_keeps_user_processes() {
    let procs = vec![
        ProcInfo { pid: 1, uid: Some(0), exe_name: Some(String::from("init")), stat: Some(stat(1, 0, 0)) },
        ProcInfo { pid: 20, uid: Some(1000), exe_name: Some(String::from("editor")), stat: Some(stat(20, 1, 0)) },
        ProcInfo { pid: 21, uid: None, exe_name: Some(String::from("ghost")), stat: Some(stat(21, 1, 0)) },
    ];
    let l = ProcessLauncher::new("sherlock-process", Some(procs)).unwrap();
    assert_eq!(l.icon, "sherlock-process");
    assert_eq!(l.processes, vec![((20, 20), String::from("editor"))]);
    assert!(ProcessLauncher::new("x", None).is_none());
}

#[test]
fn kill_goes_to_child_then_parent() {
    assert_eq!(ProcessLauncher::kill_targets((4, 9)), vec![9, 4]);
    assert_eq!(ProcessLauncher::kill_targets((4, 4)), vec![4]);
    let e = ProcessLauncher::kill_error(-7, String::from("EPERM"));
    match e.error {
        SherlockErrorType::CommandExecutionError(m) => assert_eq!(m, "Kill process \"-7\""),
        _ => panic!("wrong error"),
    }
    assert_eq!(e.traceback, "EPERM");
}

#[test]
fn counts_increment_one_key() {
    let reader = CounterReader::new("/home/u");
    assert_eq!(reader.path, "/home/u/.sherlock/counts.json");
    let mut m = CountMap::new();
    reader.increment(&mut m, "firefox");
    reader.increment(&mut m, "firefox");
    reader.increment(&mut m, "kitty");
    assert_eq!(m.get("firefox"), 2);
    assert_eq!(m.get("kitty"), 1);
    assert_eq!(m.get("none"), 0);
    m.set("max", u64::MAX);
    reader.increment(&mut m, "max");
    assert_eq!(m.get("max"), u64::MAX);
}

#[test]
fn zero_counts_for_each_exec() {
    let m = CountMap::zeros(&vec![String::from("a"), String::from("b"), String::from("a")]);
    assert_eq!(m.entries.len(), 2);
    assert_eq!(m.get("a"), 0);
    assert_eq!(m.get("b"), 0);
}

#[test]
fn frames_round_trip() {
    let f = encode_frame(b"hello").unwrap();
    assert_eq!(f, vec![0, 0, 0, 5, b'h', b'e', b'l', b'l', b'o']);
    assert_eq!(frame_len([0, 0, 1, 2]), 258);
    let mut two = f.clone();
    two.extend(encode_frame(b"").unwrap());
    let (m, k) = decode_frame(&two).unwrap();
    assert_eq!(m, b"hello".to_vec());
    assert_eq!(k, 9);
    let (m2, k2) = decode_frame(&two[k..]).unwrap();
    assert!(m2.is_empty());
    assert_eq!(k2, 4);
    assert!(decode_frame(&[0, 0, 0, 9, 1]).is_none());
    assert!(decode_frame(&[0, 0]).is_none());
}

#[test]
fn message_buffer_is_first_in_first_out() {
    let mut b = MessageBuffer { pending: vec![] };
    b.write_sized(b"one").unwrap();
    b.write_sized(b"two").unwrap();
    assert_eq!(b.read_sized().unwrap(), b"one".to_vec());
    assert_eq!(b.read_sized().unwrap(), b"two".to_vec());
    let err = b.read_sized().unwrap_err();
    assert!(matches!(err.error, SherlockErrorType::SocketWriteError(_)));
}

#[test]
fn daemon_messages() {
    assert_eq!(daemon_message(b"  \"Show\"\n").as_deref(), Some("\"Show\""));
    assert!(daemon_message(b"").is_none());
    assert_eq!(utf8_lossy(&[b'a', 0xff]), "a\u{fffd}");
    assert!(is_exit_answer(" EXIT\n"));
    assert!(!is_exit_answer("EXITED"));
    assert_eq!(pipe_socket_path(), "/tmp/sherlock-pipe.socket");
    assert_eq!(instance_messages(b"", b"req"), vec![b"\"Show\"".to_vec()]);
    assert_eq!(
        instance_messages(b"data", b"req"),
        vec![b"req".to_vec(), b"data".to_vec(), b"\"Show\"".to_vec()]
    );
}

#[test]
fn lock_steps() {
    assert!(ensure_single_instance(LockPresence::Absent) == LockStep::Create);
    assert!(ensure_single_instance(LockPresence::Present(None)) == LockStep::Create);
    assert!(ensure_single_instance(LockPresence::Present(Some(String::from("4242")))) == LockStep::Probe(4242));
    assert!(ensure_single_instance(LockPresence::Present(Some(String::from("pid")))) == LockStep::Create);
    assert!(after_probe(true) == ProbeAction::NotifyDaemon);
    assert!(after_probe(false) == ProbeAction::RemoveStale);
}

#[test]
fn lock_file_creation() {
    assert_eq!(LockFile::check(true).unwrap_err(), "Lockfile already exists. Aborting...");
    assert!(LockFile::check(false).is_ok());
    assert_eq!(LockFile::new("/tmp/l", LockCreate::Created).unwrap().path, "/tmp/l");
    assert_eq!(
        LockFile::new("/tmp/l", LockCreate::CreateFailed(String::from("denied"))).err().unwrap(),
        "Failed to create lock file: denied"
    );
    assert_eq!(LockFile::new("/tmp/l", LockCreate::WriteFailed(String::from("full"))).err().unwrap(), "full");
    assert_eq!(LockFile::remove_error("gone"), "Failed to remove lock file: gone");
}

#[test]
fn temp_path_replaces_extension() {
    assert_eq!(
        JsonCache::temp_path("/home/u/.sherlock/counts.json"),
        "/home/u/.sherlock/counts..tmp"
    );
    assert_eq!(JsonCache::temp_path("/tmp/actions"), "/tmp/actions..tmp");
    assert_eq!(JsonCache::temp_path("/home/u/.bashrc"), "/home/u/.bashrc..tmp");
}

#[test]
fn released_lock_is_taken_again() {
    assert!(ensure_single_instance(LockPresence::Absent) == LockStep::Create);
    assert!(LockFile::check(false).is_ok());
    let l = LockFile::new("/tmp/sherlock.lock", LockCreate::Created).ok().unwrap();
    assert_eq!(l.path, "/tmp/sherlock.lock");
}
