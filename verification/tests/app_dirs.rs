use std::collections::HashSet;

use sherlock::app_dirs::{file_has_changed, get_applications_dir, is_desktop_file, xdg_application_dirs};

#[test]
fn test_get_applications_dir() {
    let test_path = Some("/home/cinnamon/.local/share/flatpak/exports/share:/var/lib/flatpak/exports/share:/home/cinnamon/.nix-profile/share:/nix/profile/share:/home/cinnamon/.local/state/nix/profile/share:/etc/profiles/per-user/cinnamon/share:/nix/var/nix/profiles/default/share:/run/current-system/sw/share".to_string());

    let res: HashSet<String> = match test_path {
        Some(path) => xdg_application_dirs(Some(path.as_str())).into_iter().collect(),
        _ => HashSet::from([String::from("/usr/share/applications/")]),
    };

    let expected_app_dirs: HashSet<String> = HashSet::from([
        String::from("/home/cinnamon/.local/share/flatpak/exports/share/applications/"),
        String::from("/var/lib/flatpak/exports/share/applications/"),
        String::from("/home/cinnamon/.nix-profile/share/applications/"),
        String::from("/nix/profile/share/applications/"),
        String::from("/home/cinnamon/.local/state/nix/profile/share/applications/"),
        String::from("/etc/profiles/per-user/cinnamon/share/applications/"),
        String::from("/nix/var/nix/profiles/default/share/applications/"),
        String::from("/run/current-system/sw/share/applications/"),
    ]);

    assert_eq!(res, expected_app_dirs);
}

#[test]
fn application_dirs_replace_home_and_append_xdg() {
    let extra = vec![String::from("~/apps")];
    let dirs = get_applications_dir(Some("/opt/share"), Some("/home/u"), &extra);
    assert_eq!(
        dirs,
        vec![
            String::from("/usr/share/applications/"),
            String::from("/home/u/.local/share/applications/"),
            String::from("/home/u/apps"),
            String::from("/opt/share/applications/"),
        ]
    );
}

#[test]
fn application_dirs_keep_tilde_without_home() {
    let dirs = get_applications_dir(None, None, &vec![]);
    assert_eq!(
        dirs,
        vec![
            String::from("/usr/share/applications/"),
            String::from("~/.local/share/applications/"),
        ]
    );
}

#[test]
fn xdg_dirs_absent() {
    assert!(xdg_application_dirs(None).is_empty());
}

#[test]
fn desktop_files_by_extension() {
    assert!(is_desktop_file("/usr/share/applications/firefox.desktop"));
    assert!(!is_desktop_file("/usr/share/applications/firefox.desktop.bak"));
    assert!(!is_desktop_file("/usr/share/applications/.desktop"));
    assert!(!is_desktop_file("/usr/share/applications/README"));
}

#[test]
fn file_change_needs_both_times() {
    assert!(file_has_changed(Some(5), Some(5)));
    assert!(file_has_changed(Some(6), Some(5)));
    assert!(!file_has_changed(Some(4), Some(5)));
    assert!(!file_has_changed(None, Some(5)));
    assert!(!file_has_changed(Some(5), None));
}

#[test]
fn application_dirs_listed_once() {
    let dirs = get_applications_dir(Some("/usr/share:/opt"), Some("/home/u"), &vec![String::from("/usr/share/applications/")]);
    assert_eq!(
        dirs,
        vec![
            String::from("/usr/share/applications/"),
            String::from("/home/u/.local/share/applications/"),
            String::from("/opt/applications/"),
        ]
    );
}
