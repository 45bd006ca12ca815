use libgyro::configuration::{ConfigureContent, Entry, EntryCategory};
use libgyro::reconcile::{reconcile, ScanOutcome};
use libgyro::scan::{
    filter_hidden_repositories, git_repository_root, is_in_hidden_dir, repositories_from_entries,
    repository_name,
};
use libgyro::ConfigurationContent;

#[test]
fn hidden_dir_examples() {
    assert!(!is_in_hidden_dir("/home/user/project"));
    assert!(is_in_hidden_dir("/home/user/.cache/project"));
    assert!(!is_in_hidden_dir("project"));
}

#[test]
fn hidden_dir_edges() {
    assert!(!is_in_hidden_dir(""));
    assert!(!is_in_hidden_dir("/"));
    assert!(is_in_hidden_dir(".hidden"));
    assert!(is_in_hidden_dir("/a/b/.c"));
    assert!(!is_in_hidden_dir("/a/b.c/d"));
    assert!(!is_in_hidden_dir("/a/./b"));
    assert!(is_in_hidden_dir("./a"));
    assert!(is_in_hidden_dir("/a/../b"));
}

#[test]
fn filter_hidden_keeps_order() {
    let all = vec![
        "/home/u/code/a".to_string(),
        "/home/u/.hidden/b".to_string(),
        "/home/u/c".to_string(),
    ];
    let kept = filter_hidden_repositories(&all);
    assert_eq!(kept, vec![&all[0], &all[2]]);
}

#[test]
fn roots_of_walked_entries() {
    assert_eq!(git_repository_root("/home/u/code/a/.git", true), Some("/home/u/code/a".to_string()));
    assert_eq!(git_repository_root("/home/u/code/a/.git", false), None);
    assert_eq!(git_repository_root("/home/u/code/a/x.git", true), None);
    assert_eq!(git_repository_root("/home/u/code/a", true), None);
    assert_eq!(git_repository_root("/.git", true), Some("/".to_string()));
    assert_eq!(git_repository_root(".git", true), Some(String::new()));
}

#[test]
fn repository_names() {
    assert_eq!(repository_name("/home/u/code/a"), "a");
    assert_eq!(repository_name("plain"), "plain");
    assert_eq!(repository_name("/trailing/"), "");
}

fn walk() -> Vec<(String, bool)> {
    vec![
        ("/home/u/code".to_string(), true),
        ("/home/u/code/a".to_string(), true),
        ("/home/u/code/a/.git".to_string(), true),
        ("/home/u/code/a/README".to_string(), false),
        ("/home/u/.hidden".to_string(), true),
        ("/home/u/.hidden/b".to_string(), true),
        ("/home/u/.hidden/b/.git".to_string(), true),
    ]
}

#[test]
fn scan_filter_and_reconcile_scenario() {
    let found = repositories_from_entries(&walk());
    assert_eq!(found, vec!["/home/u/code/a".to_string(), "/home/u/.hidden/b".to_string()]);
    let visible: Vec<String> = filter_hidden_repositories(&found).into_iter().cloned().collect();
    assert_eq!(visible, vec!["/home/u/code/a".to_string()]);
    let mut store = ConfigurationContent::new();
    let first = reconcile(&visible, &mut store, &EntryCategory::Watched, false);
    assert_eq!(first.len(), 1);
    assert_eq!(first[0].name, "a");
    assert_eq!(first[0].outcome, ScanOutcome::Added);
    let e = Entry::from_fields(store.get("watched.a").unwrap()).unwrap();
    assert_eq!(e.path, "/home/u/code/a");
    let second = reconcile(&visible, &mut store, &EntryCategory::Watched, false);
    assert_eq!(second[0].outcome, ScanOutcome::AlreadyTracked);
    assert_eq!(store.keys(), vec!["watched.a".to_string()]);
}

#[test]
fn reconcile_diff_only_reports() {
    let mut store = ConfigurationContent::new();
    store.add_entry("old", &mut Entry::new("old", "/x/old"), &EntryCategory::Ignored).unwrap();
    let found = vec!["/x/old".to_string(), "/y/new".to_string()];
    let r = reconcile(&found, &mut store, &EntryCategory::Watched, true);
    assert_eq!(r[0].outcome, ScanOutcome::AlreadyTracked);
    assert_eq!(r[1].outcome, ScanOutcome::Reported);
    assert_eq!(r[1].name, "new");
    assert_eq!(r[1].path, "/y/new");
    assert_eq!(store.keys(), vec!["ignored.old".to_string()]);
}

#[test]
fn reconcile_same_name_twice() {
    let mut store = ConfigurationContent::new();
    let found = vec!["/a/dup".to_string(), "/b/dup".to_string()];
    let r = reconcile(&found, &mut store, &EntryCategory::Ignored, false);
    assert_eq!(r[0].outcome, ScanOutcome::Added);
    assert_eq!(r[1].outcome, ScanOutcome::AlreadyTracked);
    let e = Entry::from_fields(store.get("ignored.dup").unwrap()).unwrap();
    assert_eq!(e.path, "/a/dup");
}

#[test]
fn reconcile_add_failure_does_not_stop_others() {
    let mut store = ConfigurationContent::new();
    store.add_entry("g", &mut Entry::new("g", "/g"), &EntryCategory::Groups).unwrap();
    let found = vec!["/r/g".to_string(), "/r/h".to_string()];
    let r = reconcile(&found, &mut store, &EntryCategory::Groups, false);
    assert_eq!(r[0].outcome, ScanOutcome::AddFailed);
    assert_eq!(
        r[0].error,
        Some(libgyro::configuration::ConfigureContentError::KeyAlreadyExists("groups.g".to_string()))
    );
    assert_eq!(r[1].outcome, ScanOutcome::Added);
    assert!(store.contains_key("groups.h"));
}
