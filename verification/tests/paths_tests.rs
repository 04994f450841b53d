use roextract::paths::{db_path_candidates, removable_temp_dir, replace_all, resolve_path_bytes,
    storage_folder_of};

#[test]
fn replace_all_rewrites_every_occurrence() {
    assert_eq!(replace_all(b"a-b-a", b"a", b"xy"), b"xy-b-xy".to_vec());
    assert_eq!(replace_all(b"aaaa", b"aa", b"b"), b"bb".to_vec());
    assert_eq!(replace_all(b"nothing", b"zz", b"y"), b"nothing".to_vec());
}

#[test]
fn replace_all_with_empty_pattern_changes_nothing() {
    assert_eq!(replace_all(b"abc", b"", b"x"), b"abc".to_vec());
}

#[test]
fn replacements_are_not_rescanned() {
    // The replacement text itself holds the pattern; rewriting is a
    // single left-to-right pass, so it is not expanded again.
    assert_eq!(replace_all(b"a", b"a", b"aa"), b"aa".to_vec());
}

#[test]
fn resolve_windows_temp_placeholder() {
    let out = resolve_path_bytes(b"%Temp%\\cache", b"pat");
    assert_eq!(out, b"C:\\Users\\pat\\AppData\\Local\\Temp\\cache".to_vec());
}

#[test]
fn resolve_windows_localappdata_placeholder() {
    let out = resolve_path_bytes(b"%localappdata%\\Roblox\\rbx-storage.db", b"pat");
    assert_eq!(
        out,
        b"C:\\Users\\pat\\AppData\\Local\\Roblox\\rbx-storage.db".to_vec()
    );
}

#[test]
fn resolve_home_shorthand() {
    let out = resolve_path_bytes(b"~/.var/data", b"pat");
    assert_eq!(out, b"/home/pat/.var/data".to_vec());
}

#[test]
fn resolve_leaves_plain_paths_alone() {
    let out = resolve_path_bytes(b"/var/cache/assets", b"pat");
    assert_eq!(out, b"/var/cache/assets".to_vec());
}

#[test]
fn candidates_put_configured_path_first() {
    let defaults = vec![
        "%localappdata%\\Roblox\\rbx-storage.db".to_owned(),
        "~/.var/app/org.vinegarhq.Sober/data/sober/appData/rbx-storage.db".to_owned(),
    ];
    assert_eq!(db_path_candidates(None), defaults);
    let with_user = db_path_candidates(Some("/custom/rbx-storage.db".to_owned()));
    assert_eq!(with_user.len(), 3);
    assert_eq!(with_user[0], "/custom/rbx-storage.db");
    assert_eq!(&with_user[1..], &defaults[..]);
}

#[test]
fn storage_folder_sits_beside_the_database_file() {
    assert_eq!(
        storage_folder_of(b"/data/sober/rbx-storage.db"),
        Some(b"/data/sober/rbx-storage".to_vec())
    );
    assert_eq!(
        storage_folder_of(b"C:\\Roblox\\rbx-storage.db"),
        Some(b"C:\\Roblox\\rbx-storage".to_vec())
    );
    assert_eq!(storage_folder_of(b"rbx-storage.db"), None);
}

#[test]
fn storage_folder_never_denotes_a_bare_root() {
    // Even a file directly under the root resolves to a named folder.
    assert_eq!(storage_folder_of(b"/f.db"), Some(b"/rbx-storage".to_vec()));
}

#[test]
fn temp_dir_guard_refuses_empty_and_root() {
    assert!(!removable_temp_dir(""));
    assert!(!removable_temp_dir("/"));
    assert!(removable_temp_dir("/tmp/assets"));
    assert!(removable_temp_dir("C:\\Temp"));
}
