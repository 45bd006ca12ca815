use vstd::prelude::*;
use crate::configuration::{
    ConfigureContent, ConfigureContentError, EntryCategory, Fields, fields_view, namespace_of,
};
use crate::content::{ConfigurationContent, doc_view, items_map, keys_distinct};

verus! {

/// The TOML text that `toml` writes for a configuration.
pub uninterp spec fn toml_text(doc: Map<Seq<char>, Fields>) -> Seq<char>;

/// The configuration that `toml` reads from a text, if it reads as one.
pub uninterp spec fn toml_parsed(text: Seq<char>) -> Option<Map<Seq<char>, Fields>>;

/// Relies on `toml::to_string` on a map of tables of strings: the document
/// written depends on the map alone. The keys handed over are distinct.
#[verifier::external_body]
fn toml_encode(doc: &Vec<(String, Vec<(String, String)>)>) -> (r: Option<String>)
    requires
        keys_distinct(doc_view(doc@)),
    ensures
        r matches Some(s) ==> s@ == toml_text(items_map(doc_view(doc@))),
{
    let m: std::collections::BTreeMap<&String, std::collections::BTreeMap<&String, &String>> =
        doc.iter().map(|(k, t)| (k, t.iter().map(|(a, b)| (a, b)).collect())).collect();
    toml::to_string(&m).ok()
}

/// Relies on `toml::from_str` into a map of tables of strings; the keys of
/// a `BTreeMap` are distinct.
#[verifier::external_body]
fn toml_decode(text: &str) -> (r: Option<Vec<(String, Vec<(String, String)>)>>)
    ensures
        match r {
            Some(d) => {
                &&& toml_parsed(text@) == Some(items_map(doc_view(d@)))
                &&& keys_distinct(doc_view(d@))
            },
            None => toml_parsed(text@) is None,
        },
{
    let m: std::collections::BTreeMap<String, std::collections::BTreeMap<String, String>> =
        toml::from_str(text).ok()?;
    Some(m.into_iter().map(|(k, t)| (k, t.into_iter().collect())).collect())
}

/// A fresh configuration: the three namespaces, each with an empty record.
pub open spec fn initial_content() -> Map<Seq<char>, Fields> {
    map![
        namespace_of(EntryCategory::Watched) => Seq::empty(),
        namespace_of(EntryCategory::Ignored) => Seq::empty(),
        namespace_of(EntryCategory::Groups) => Seq::empty(),
    ]
}

/// Making and writing out a whole configuration.
pub trait ConfigurationFileExtension: ConfigureContent {
    /// A fresh configuration with its three empty namespaces.
    fn init() -> (r: Self)
        ensures
            r.valid(),
            r@ == initial_content(),
    ;

    /// The configuration as TOML text.
    fn encode(&self) -> (r: Result<String, ConfigureContentError>)
        requires
            self.valid(),
        ensures
            match r {
                Ok(s) => s@ == toml_text(self@),
                Err(e) => e is EncodingError,
            },
    ;
}

/// Reading a configuration from TOML text.
pub trait TomlExtension: ConfigureContent {
    /// The configuration that `text` holds, if it reads as one.
    fn parse_from_str(text: &str) -> (r: Option<Self>)
        ensures
            match r {
                Some(c) => c.valid() && toml_parsed(text@) == Some(c@),
                None => toml_parsed(text@) is None,
            },
    ;
}

impl ConfigurationFileExtension for ConfigurationContent {
    fn init() -> (r: ConfigurationContent) {
        let mut r = ConfigurationContent::new();
        let empty: Vec<(String, String)> = Vec::new();
        proof {
            assert(fields_view(empty@) =~= Seq::<(Seq<char>, Seq<char>)>::empty());
            assert(namespace_of(EntryCategory::Watched) != namespace_of(EntryCategory::Ignored));
            assert(namespace_of(EntryCategory::Watched) != namespace_of(EntryCategory::Groups));
            assert(namespace_of(EntryCategory::Ignored) != namespace_of(EntryCategory::Groups));
        }
        r.try_insert(EntryCategory::Watched.namespace().to_owned(), empty.clone());
        r.try_insert(EntryCategory::Ignored.namespace().to_owned(), empty.clone());
        r.try_insert(EntryCategory::Groups.namespace().to_owned(), empty);
        assert(r@ =~= initial_content());
        r
    }

    fn encode(&self) -> (r: Result<String, ConfigureContentError>) {
        match toml_encode(self.items()) {
            Some(s) => Ok(s),
            None => Err(
                ConfigureContentError::EncodingError(
                    "the configuration can not be written as TOML".to_owned(),
                ),
            ),
        }
    }
}

impl TomlExtension for ConfigurationContent {
    fn parse_from_str(text: &str) -> (r: Option<ConfigurationContent>) {
        match toml_decode(text) {
            Some(items) => Some(ConfigurationContent::from_items(items)),
            None => None,
        }
    }
}

/// Where a loaded configuration came from.
#[derive(Debug, Clone, Copy, PartialEq, Eq, Structural)]
pub enum ContentSource {
    /// It was read from the stored text.
    Loaded,
    /// A reset was asked for, and it is fresh.
    Reset,
    /// There was no stored text, and it is fresh.
    Missing,
    /// The stored text does not read as a configuration, and it is fresh.
    Unreadable,
}

impl ContentSource {
    /// Whether writing the configuration back may replace the stored text:
    /// not when that text could not be read, so that it is not lost.
    pub fn may_overwrite(&self) -> (r: bool)
        ensures
            r == (*self != ContentSource::Unreadable),
    {
        match self {
            ContentSource::Unreadable => false,
            _ => true,
        }
    }
}

/// The configuration to work on: the one that the stored `text` holds,
/// unless `reset` is asked for or the text is missing or does not read as a
/// configuration, in which case a fresh one. The source says which case it
/// was.
pub fn get_configuration_file_content(text: Option<&str>, reset: bool) -> (r: (
    ConfigurationContent,
    ContentSource,
))
    ensures
        r.0.valid(),
        reset ==> r.1 == ContentSource::Reset && r.0@ == initial_content(),
        !reset && text is Some && toml_parsed(text->0@) is Some ==> r.1 == ContentSource::Loaded
            && toml_parsed(text->0@) == Some(r.0@),
        !reset && text is None ==> r.1 == ContentSource::Missing && r.0@ == initial_content(),
        !reset && text is Some && toml_parsed(text->0@) is None ==> r.1 == ContentSource::Unreadable
            && r.0@ == initial_content(),
{
    if reset {
        return (ConfigurationContent::init(), ContentSource::Reset);
    }
    match text {
        Some(t) => match ConfigurationContent::parse_from_str(t) {
            Some(c) => (c, ContentSource::Loaded),
            None => (ConfigurationContent::init(), ContentSource::Unreadable),
        },
        None => (ConfigurationContent::init(), ContentSource::Missing),
    }
}

} // verus!
