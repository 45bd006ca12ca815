use libgyro::configuration::{ConfigureContent, Entry, EntryCategory};
use libgyro::file::{
    get_configuration_file_content, ConfigurationFileExtension, ContentSource, TomlExtension,
};
use libgyro::ConfigurationContent;

fn entry(name: &str, path: &str) -> Entry {
    Entry {
        name: name.to_string(),
        path: path.to_string(),
        created: "c".to_string(),
        updated: "u".to_string(),
    }
}

#[test]
fn init_has_three_empty_namespaces() {
    let c = ConfigurationContent::init();
    assert_eq!(
        c.keys(),
        vec!["watched".to_string(), "ignored".to_string(), "groups".to_string()]
    );
    assert!(c.get("watched").unwrap().is_empty());
    assert!(c.get("groups").unwrap().is_empty());
}

#[test]
fn encode_writes_toml_tables() {
    let c = ConfigurationContent::init();
    let text = c.encode().unwrap();
    assert!(text.contains("[watched]"));
    assert!(text.contains("[ignored]"));
    assert!(text.contains("[groups]"));
}

#[test]
fn encode_then_parse_round_trip() {
    let mut c = ConfigurationContent::init();
    c.add_entry("a", &mut entry("a", "/home/u/code/a"), &EntryCategory::Watched).unwrap();
    c.add_entry("b", &mut entry("b", "/srv/b"), &EntryCategory::Ignored).unwrap();
    let text = c.encode().unwrap();
    assert!(text.contains("/home/u/code/a"));
    let back = ConfigurationContent::parse_from_str(&text).unwrap();
    let mut keys = back.keys();
    keys.sort();
    let mut want = c.keys();
    want.sort();
    assert_eq!(keys, want);
    for k in c.keys() {
        let mut x = c.get(&k).unwrap().clone();
        let mut y = back.get(&k).unwrap().clone();
        x.sort();
        y.sort();
        assert_eq!(x, y);
    }
    let a = Entry::from_fields(back.get("watched.a").unwrap()).unwrap();
    assert_eq!(a.name, "a");
    assert_eq!(a.path, "/home/u/code/a");
}

#[test]
fn parse_reads_dotted_keys_as_quoted_tables() {
    let text = "[watched]\n\n[\"watched.r\"]\nname = \"r\"\npath = \"/r\"\nupdated = \"t\"\n";
    let c = ConfigurationContent::parse_from_str(text).unwrap();
    assert!(c.contains_key("watched"));
    let e = Entry::from_fields(c.get("watched.r").unwrap()).unwrap();
    assert_eq!(e.path, "/r");
    assert_eq!(e.created, "t");
}

#[test]
fn parse_rejects_bad_text() {
    assert!(ConfigurationContent::parse_from_str("[watched\nname = ").is_none());
}

#[test]
fn loader_prefers_stored_text() {
    let text = "[ignored]\n";
    let (c, source) = get_configuration_file_content(Some(text), false);
    assert_eq!(source, ContentSource::Loaded);
    assert_eq!(c.keys(), vec!["ignored".to_string()]);
}

#[test]
fn loader_resets_on_request() {
    let (c, source) = get_configuration_file_content(Some("[ignored]\n"), true);
    assert_eq!(source, ContentSource::Reset);
    assert_eq!(c.keys().len(), 3);
}

#[test]
fn loader_falls_back_when_missing_or_unreadable() {
    let (c, source) = get_configuration_file_content(None, false);
    assert_eq!(source, ContentSource::Missing);
    assert_eq!(c.keys().len(), 3);
    assert!(source.may_overwrite());
    let (d, source) = get_configuration_file_content(Some("= broken"), false);
    assert_eq!(source, ContentSource::Unreadable);
    assert_eq!(d.keys().len(), 3);
    assert!(!source.may_overwrite());
}
