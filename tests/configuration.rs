use libgyro::configuration::{ConfigureContent, ConfigureContentError, Entry, EntryCategory};
use libgyro::ConfigurationContent;

fn record(pairs: &[(&str, &str)]) -> Vec<(String, String)> {
    pairs.iter().map(|(k, v)| (k.to_string(), v.to_string())).collect()
}

fn entry(name: &str, path: &str) -> Entry {
    Entry {
        name: name.to_string(),
        path: path.to_string(),
        created: "Mon, 01 Jan 2024 00:00:00 +0000".to_string(),
        updated: "Mon, 01 Jan 2024 00:00:00 +0000".to_string(),
    }
}

#[test]
fn namespaces_of_categories() {
    assert_eq!(EntryCategory::Watched.namespace(), "watched");
    assert_eq!(EntryCategory::Ignored.namespace(), "ignored");
    assert_eq!(EntryCategory::Groups.namespace(), "groups");
}

#[test]
fn default_category_from_name() {
    assert_eq!(EntryCategory::default_from("watched"), EntryCategory::Watched);
    assert_eq!(EntryCategory::default_from("ignored"), EntryCategory::Ignored);
    assert_eq!(EntryCategory::default_from("anything"), EntryCategory::Ignored);
}

#[test]
fn entry_path_composes_namespace_and_key() {
    let c = ConfigurationContent::new();
    assert_eq!(c.get_entry_path("repo", &EntryCategory::Watched), "watched.repo");
    assert_eq!(c.get_entry_path("repo", &EntryCategory::Ignored), "ignored.repo");
    assert_eq!(c.get_entry_path("x", &EntryCategory::Groups), "groups.x");
}

#[test]
fn add_then_lookup_then_add_again_fails() {
    let mut c = ConfigurationContent::new();
    let mut e = entry("proj", "/home/u/proj");
    assert_eq!(c.add_entry("proj", &mut e, &EntryCategory::Watched), Ok(()));
    let key = c.get_entry_path("proj", &EntryCategory::Watched);
    assert!(c.contains_key(&key));
    let stored = Entry::from_fields(c.get(&key).unwrap()).unwrap();
    assert_eq!(stored.name, "proj");
    assert_eq!(stored.path, "/home/u/proj");
    assert_eq!(stored.updated, e.updated);
    let mut again = entry("proj", "/elsewhere/proj");
    assert_eq!(
        c.add_entry("proj", &mut again, &EntryCategory::Watched),
        Err(ConfigureContentError::KeyAlreadyExists("watched.proj".to_string()))
    );
    assert_eq!(again.updated, "Mon, 01 Jan 2024 00:00:00 +0000");
}

#[test]
fn add_refreshes_update_time() {
    let mut c = ConfigurationContent::new();
    let mut e = entry("proj", "/p/proj");
    c.add_entry("proj", &mut e, &EntryCategory::Ignored).unwrap();
    assert_ne!(e.updated, "Mon, 01 Jan 2024 00:00:00 +0000");
    assert_eq!(e.created, "Mon, 01 Jan 2024 00:00:00 +0000");
    assert!(!e.updated.is_empty());
}

#[test]
fn same_name_in_two_categories_is_two_keys() {
    let mut c = ConfigurationContent::new();
    assert!(c.add_entry("a", &mut entry("a", "/a"), &EntryCategory::Watched).is_ok());
    assert!(c.add_entry("a", &mut entry("a", "/a"), &EntryCategory::Ignored).is_ok());
    assert_eq!(c.keys(), vec!["watched.a".to_string(), "ignored.a".to_string()]);
}

#[test]
fn remove_absent_then_present() {
    let mut c = ConfigurationContent::new();
    assert_eq!(
        c.remove_entry("x", &EntryCategory::Watched),
        Err(ConfigureContentError::UnknownKey("watched.x".to_string()))
    );
    let mut e = entry("x", "/x");
    c.add_entry("x", &mut e, &EntryCategory::Watched).unwrap();
    let removed = c.remove_entry("x", &EntryCategory::Watched).unwrap();
    assert_eq!(removed, e.to_fields());
    assert_eq!(
        c.remove_entry("x", &EntryCategory::Watched),
        Err(ConfigureContentError::UnknownKey("watched.x".to_string()))
    );
    assert!(c.keys().is_empty());
}

#[test]
fn transfer_to_same_category_fails() {
    let mut c = ConfigurationContent::new();
    assert!(matches!(
        c.transfer_entry("k", &EntryCategory::Watched, &EntryCategory::Watched),
        Err(ConfigureContentError::BadPosition(_))
    ));
    c.add_entry("k", &mut entry("k", "/k"), &EntryCategory::Watched).unwrap();
    assert!(matches!(
        c.transfer_entry("k", &EntryCategory::Watched, &EntryCategory::Watched),
        Err(ConfigureContentError::BadPosition(_))
    ));
    assert!(c.contains_key("watched.k"));
}

#[test]
fn transfer_watched_to_ignored() {
    let mut c = ConfigurationContent::new();
    c.add_entry("X", &mut entry("X", "/src/X"), &EntryCategory::Watched).unwrap();
    assert_eq!(c.transfer_entry("X", &EntryCategory::Watched, &EntryCategory::Ignored), Ok(()));
    assert_eq!(
        c.remove_entry("X", &EntryCategory::Watched),
        Err(ConfigureContentError::UnknownKey("watched.X".to_string()))
    );
    let moved = c.remove_entry("X", &EntryCategory::Ignored).unwrap();
    let e = Entry::from_fields(&moved).unwrap();
    assert_eq!(e.name, "X");
    assert_eq!(e.path, "/src/X");
}

#[test]
fn transfer_unknown_key() {
    let mut c = ConfigurationContent::new();
    assert_eq!(
        c.transfer_entry("nope", &EntryCategory::Ignored, &EntryCategory::Watched),
        Err(ConfigureContentError::UnknownKey("ignored.nope".to_string()))
    );
}

#[test]
fn transfer_onto_taken_key_keeps_both() {
    let mut c = ConfigurationContent::new();
    c.add_entry("d", &mut entry("d", "/one/d"), &EntryCategory::Watched).unwrap();
    c.add_entry("d", &mut entry("d", "/two/d"), &EntryCategory::Ignored).unwrap();
    assert_eq!(
        c.transfer_entry("d", &EntryCategory::Watched, &EntryCategory::Ignored),
        Err(ConfigureContentError::KeyAlreadyExists("ignored.d".to_string()))
    );
    let w = Entry::from_fields(c.get("watched.d").unwrap()).unwrap();
    let i = Entry::from_fields(c.get("ignored.d").unwrap()).unwrap();
    assert_eq!(w.path, "/one/d");
    assert_eq!(i.path, "/two/d");
}

#[test]
fn transfer_of_record_that_is_no_entry() {
    let mut c = ConfigurationContent::new();
    assert!(c.try_insert("watched.g".to_string(), record(&[("name", "g")])));
    let r = c.transfer_entry("g", &EntryCategory::Watched, &EntryCategory::Ignored);
    assert!(matches!(r, Err(ConfigureContentError::DecodingError(_))));
    assert!(c.contains_key("watched.g"));
    assert!(!c.contains_key("ignored.g"));
}

#[test]
fn entry_fields_round_trip() {
    let e = entry("n", "/p/n");
    let t = e.to_fields();
    assert_eq!(
        t,
        record(&[
            ("name", "n"),
            ("path", "/p/n"),
            ("created", "Mon, 01 Jan 2024 00:00:00 +0000"),
            ("updated", "Mon, 01 Jan 2024 00:00:00 +0000"),
        ])
    );
    let back = Entry::from_fields(&t).unwrap();
    assert_eq!(back.name, e.name);
    assert_eq!(back.path, e.path);
    assert_eq!(back.created, e.created);
    assert_eq!(back.updated, e.updated);
}

#[test]
fn record_without_creation_time_decodes() {
    let t = record(&[("updated", "u1"), ("path", "/q"), ("name", "q"), ("extra", "z")]);
    let e = Entry::from_fields(&t).unwrap();
    assert_eq!(e.name, "q");
    assert_eq!(e.path, "/q");
    assert_eq!(e.created, "u1");
    assert_eq!(e.updated, "u1");
    assert!(Entry::from_fields(&record(&[("name", "q"), ("path", "/q")])).is_none());
}

#[test]
fn new_entry_is_stamped_now() {
    let e = Entry::new("r", "/r");
    assert_eq!(e.name, "r");
    assert_eq!(e.path, "/r");
    assert_eq!(e.created, e.updated);
    assert!(e.updated.contains(':'));
    let mut f = entry("r", "/r");
    f.update();
    assert_ne!(f.updated, "Mon, 01 Jan 2024 00:00:00 +0000");
    assert_eq!(f.created, "Mon, 01 Jan 2024 00:00:00 +0000");
}

#[test]
fn error_messages() {
    assert_eq!(ConfigureContentError::UnknownKey("watched.a".to_string()).message(), "watched.a");
    assert_eq!(ConfigureContentError::EncodingError("e".to_string()).message(), "e");
    assert_eq!(ConfigureContentError::InternalError("i".to_string()).message(), "i");
}

#[test]
fn try_insert_keeps_existing() {
    let mut c = ConfigurationContent::new();
    assert!(c.try_insert("a".to_string(), record(&[("x", "1")])));
    assert!(!c.try_insert("a".to_string(), record(&[("x", "2")])));
    assert_eq!(c.get("a").unwrap(), &record(&[("x", "1")]));
    assert_eq!(c.remove("a"), Some(record(&[("x", "1")])));
    assert_eq!(c.remove("a"), None);
}

#[test]
fn entries_of_a_category() {
    let mut c = ConfigurationContent::new();
    c.try_insert("watched".to_string(), Vec::new());
    c.add_entry("a", &mut entry("a", "/a"), &EntryCategory::Watched).unwrap();
    c.add_entry("b", &mut entry("b", "/b"), &EntryCategory::Ignored).unwrap();
    c.try_insert("watched.bad".to_string(), record(&[("name", "bad")]));
    c.add_entry("c", &mut entry("c", "/c"), &EntryCategory::Watched).unwrap();
    let watched: Vec<String> = c.entries_of(&EntryCategory::Watched).into_iter().map(|e| e.path).collect();
    assert_eq!(watched, vec!["/a".to_string(), "/c".to_string()]);
    let ignored: Vec<String> = c.entries_of(&EntryCategory::Ignored).into_iter().map(|e| e.name).collect();
    assert_eq!(ignored, vec!["b".to_string()]);
    assert!(c.entries_of(&EntryCategory::Groups).is_empty());
}

#[test]
fn toggle_moves_between_watched_and_ignored() {
    let mut c = ConfigurationContent::new();
    c.add_entry("t", &mut entry("t", "/t"), &EntryCategory::Watched).unwrap();
    assert_eq!(c.toggle_entry("t"), Ok(EntryCategory::Ignored));
    assert!(c.contains_key("ignored.t"));
    assert_eq!(c.toggle_entry("t"), Ok(EntryCategory::Watched));
    assert!(c.contains_key("watched.t"));
    assert!(!c.contains_key("ignored.t"));
    assert_eq!(
        c.toggle_entry("none"),
        Err(ConfigureContentError::UnknownKey("ignored.none".to_string()))
    );
}
