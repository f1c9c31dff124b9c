use cliptown_world::backup::{
    check_snapshot_path, is_snapshot_name, name_lt, path_splice_safe, prune_victims, snapshot_file_name, BackupError,
    BackupSettings,
};

fn names(v: &[&str]) -> Vec<String> {
    v.iter().map(|s| s.to_string()).collect()
}

#[test]
fn snapshot_names_follow_the_timestamp() {
    assert_eq!(snapshot_file_name(0).as_deref(), Some("cliptown-19700101-000000.db"));
    assert_eq!(snapshot_file_name(1_431_648_000 + 3_723).as_deref(), Some("cliptown-20150515-010203.db"));
    assert_eq!(snapshot_file_name(i64::MAX), None);
}

#[test]
fn snapshot_names_are_recognized() {
    assert!(is_snapshot_name("cliptown-20240101-000000.db"));
    assert!(is_snapshot_name("cliptown-.db"));
    assert!(!is_snapshot_name("cliptown-20240101-000000.db.tmp"));
    assert!(!is_snapshot_name("notes.db"));
    assert!(!is_snapshot_name("cliptown.db"));
}

#[test]
fn names_sort_by_timestamp() {
    assert!(name_lt("cliptown-20240101-000000.db", "cliptown-20240102-000000.db"));
    assert!(!name_lt("cliptown-20240102-000000.db", "cliptown-20240101-000000.db"));
    assert!(!name_lt("a", "a"));
    assert!(name_lt("a", "ab"));
    assert!(name_lt("", "a"));
}

#[test]
fn rotation_deletes_the_oldest_beyond_keep() {
    let dir = names(&[
        "cliptown-20240103-000000.db",
        "readme.txt",
        "cliptown-20240101-000000.db",
        "cliptown-20240104-000000.db",
        "cliptown-20240102-000000.db",
    ]);
    assert_eq!(prune_victims(&dir, 2), names(&["cliptown-20240101-000000.db", "cliptown-20240102-000000.db"]));
    assert_eq!(prune_victims(&dir, 4), Vec::<String>::new());
    assert_eq!(prune_victims(&dir, 14), Vec::<String>::new());
    assert_eq!(prune_victims(&dir, 0).len(), 4);
}

#[test]
fn unsafe_paths_are_refused() {
    assert!(path_splice_safe("/var/backups/cliptown-1.db"));
    assert!(!path_splice_safe("/tmp/it's.db"));
    assert!(!path_splice_safe("C:\\x.db"));
    match check_snapshot_path("/tmp/a'b") {
        Err(BackupError::UnsafePath(p)) => assert_eq!(p, "/tmp/a'b"),
        other => panic!("unexpected {other:?}"),
    }
    assert!(check_snapshot_path("/tmp/ab").is_ok());
}

#[test]
fn backup_settings_defaults() {
    assert!(BackupSettings::from_settings(None, None, None).is_none());
    assert!(BackupSettings::from_settings(Some(String::new()), Some(2), Some(3)).is_none());
    let s = BackupSettings::from_settings(Some("/b".into()), None, None).unwrap();
    assert_eq!(s.dir, std::path::PathBuf::from("/b"));
    assert_eq!(s.interval, std::time::Duration::from_secs(6 * 3600));
    assert_eq!(s.keep, 14);
    let s = BackupSettings::from_settings(Some("/b".into()), Some(0), Some(0)).unwrap();
    assert_eq!(s.interval, std::time::Duration::from_secs(6 * 3600));
    assert_eq!(s.keep, 14);
    let s = BackupSettings::from_settings(Some("/b".into()), Some(2), Some(3)).unwrap();
    assert_eq!(s.interval, std::time::Duration::from_secs(2 * 3600));
    assert_eq!(s.keep, 3);
}
