use vstd::prelude::*;
use crate::content::ConfigurationContent;

verus! {

/// The category an entry is stored under. Each one owns a top-level
/// namespace of the configuration: `groups`, `ignored` or `watched`.
#[derive(Debug, Clone, Copy, PartialEq, Eq, Structural)]
pub enum EntryCategory {
    Groups,
    Ignored,
    Watched,
}

/// The namespace key of a category, as characters.
pub open spec fn namespace_of(c: EntryCategory) -> Seq<char> {
    match c {
        EntryCategory::Groups => seq!['g', 'r', 'o', 'u', 'p', 's'],
        EntryCategory::Ignored => seq!['i', 'g', 'n', 'o', 'r', 'e', 'd'],
        EntryCategory::Watched => seq!['w', 'a', 't', 'c', 'h', 'e', 'd'],
    }
}

/// The full key of an entry: its category's namespace, a dot, and the entry's key.
pub open spec fn entry_path(key: Seq<char>, c: EntryCategory) -> Seq<char> {
    namespace_of(c) + seq!['.'] + key
}

/// Two categories never compose the same full key.
pub proof fn lemma_entry_path_distinct(k1: Seq<char>, c1: EntryCategory, k2: Seq<char>, c2: EntryCategory)
    requires
        c1 != c2,
    ensures
        entry_path(k1, c1) != entry_path(k2, c2),
{
    assert(entry_path(k1, c1)[0] == namespace_of(c1)[0]);
    assert(entry_path(k2, c2)[0] == namespace_of(c2)[0]);
}

impl EntryCategory {
    /// The namespace key of this category.
    pub fn namespace(&self) -> (r: &'static str)
        ensures
            r@ == namespace_of(*self),
    {
        match self {
            EntryCategory::Groups => {
                let s = "groups";
                proof {
                    reveal_strlit("groups");
                }
                assert(s@ =~= namespace_of(*self));
                s
            },
            EntryCategory::Ignored => {
                let s = "ignored";
                proof {
                    reveal_strlit("ignored");
                }
                assert(s@ =~= namespace_of(*self));
                s
            },
            EntryCategory::Watched => {
                let s = "watched";
                proof {
                    reveal_strlit("watched");
                }
                assert(s@ =~= namespace_of(*self));
                s
            },
        }
    }

    /// The category that newly found repositories go to, from the name of a
    /// namespace: `watched` selects `Watched`, any other name `Ignored`.
    pub fn default_from(name: &str) -> (r: EntryCategory)
        ensures
            r == (if name@ == namespace_of(EntryCategory::Watched) {
                EntryCategory::Watched
            } else {
                EntryCategory::Ignored
            }),
    {
        let watched = EntryCategory::Watched.namespace();
        if str_eq(name, watched) {
            EntryCategory::Watched
        } else {
            EntryCategory::Ignored
        }
    }
}

/// Whether two strings hold the same characters.
pub fn str_eq(a: &str, b: &str) -> (r: bool)
    ensures
        r == (a@ == b@),
{
    let n = a.unicode_len();
    let m = b.unicode_len();
    if n != m {
        return false;
    }
    let mut i: usize = 0;
    while i < n
        invariant
            n == a@.len(),
            m == b@.len(),
            n == m,
            i <= n,
            forall|j: int| 0 <= j < i ==> a@[j] == b@[j],
        decreases n - i,
    {
        if a.get_char(i) != b.get_char(i) {
            return false;
        }
        i = i + 1;
    }
    assert(a@ =~= b@);
    true
}

/// The name under which an entry's name is encoded.
pub open spec fn name_field() -> Seq<char> {
    seq!['n', 'a', 'm', 'e']
}

/// The name under which an entry's path is encoded.
pub open spec fn path_field() -> Seq<char> {
    seq!['p', 'a', 't', 'h']
}

/// The name under which an entry's creation time is encoded.
pub open spec fn created_field() -> Seq<char> {
    seq!['c', 'r', 'e', 'a', 't', 'e', 'd']
}

/// The name under which an entry's last update time is encoded.
pub open spec fn updated_field() -> Seq<char> {
    seq!['u', 'p', 'd', 'a', 't', 'e', 'd']
}

/// A record as it is stored: a list of (field name, value) pairs.
pub type Fields = Seq<(Seq<char>, Seq<char>)>;

/// The characters of a stored record.
pub open spec fn fields_view(t: Seq<(String, String)>) -> Fields {
    t.map_values(|p: (String, String)| (p.0@, p.1@))
}

/// The value of the first field of `t` named `k`.
pub open spec fn field_lookup(t: Fields, k: Seq<char>) -> Option<Seq<char>>
    decreases t.len(),
{
    if t.len() == 0 {
        None
    } else if t[0].0 == k {
        Some(t[0].1)
    } else {
        field_lookup(t.drop_first(), k)
    }
}

/// What an entry holds, as characters.
pub ghost struct EntryView {
    pub name: Seq<char>,
    pub path: Seq<char>,
    pub created: Seq<char>,
    pub updated: Seq<char>,
}

/// The record that an entry is stored as.
pub open spec fn encode_spec(e: EntryView) -> Fields {
    seq![
        (name_field(), e.name),
        (path_field(), e.path),
        (created_field(), e.created),
        (updated_field(), e.updated),
    ]
}

/// The entry that a record describes, if it has a name, a path and an update
/// time. A record without a creation time takes its update time as such.
pub open spec fn decode_spec(t: Fields) -> Option<EntryView> {
    match (field_lookup(t, name_field()), field_lookup(t, path_field()), field_lookup(t, updated_field())) {
        (Some(name), Some(path), Some(updated)) => Some(
            EntryView {
                name,
                path,
                created: match field_lookup(t, created_field()) {
                    Some(c) => c,
                    None => updated,
                },
                updated,
            },
        ),
        _ => None,
    }
}

/// A record written from an entry reads back as the same entry.
pub proof fn lemma_entry_round_trip(e: EntryView)
    ensures
        decode_spec(encode_spec(e)) == Some(e),
{
    let t = encode_spec(e);
    reveal_with_fuel(field_lookup, 5);
    assert(t.drop_first() =~= seq![(path_field(), e.path), (created_field(), e.created), (updated_field(), e.updated)]);
    assert(t.drop_first().drop_first() =~= seq![(created_field(), e.created), (updated_field(), e.updated)]);
    assert(t.drop_first().drop_first().drop_first() =~= seq![(updated_field(), e.updated)]);
    assert(field_lookup(t, name_field()) == Some(e.name));
    assert(field_lookup(t, path_field()) == Some(e.path));
    assert(field_lookup(t, created_field()) == Some(e.created));
    assert(field_lookup(t, updated_field()) == Some(e.updated));
}

/// Adding an entry stores it under the full key that `get_entry_path`
/// composes for its key and category, where it reads back as that entry;
/// a second `add_entry` with the same key and category then finds the key
/// taken and fails with `KeyAlreadyExists`.
pub proof fn lemma_add_then_lookup(
    before: Map<Seq<char>, Fields>,
    key: Seq<char>,
    category: EntryCategory,
    e: EntryView,
)
    requires
        !before.contains_key(entry_path(key, category)),
    ensures
        before.insert(entry_path(key, category), encode_spec(e)).contains_key(
            entry_path(key, category),
        ),
        decode_spec(before.insert(entry_path(key, category), encode_spec(e))[entry_path(
            key,
            category,
        )]) == Some(e),
{
    lemma_entry_round_trip(e);
}

/// Removing a stored entry takes its key out of the store, so that a second
/// `remove_entry` of the same key and category fails with `UnknownKey`.
pub proof fn lemma_remove_then_unknown(
    before: Map<Seq<char>, Fields>,
    key: Seq<char>,
    category: EntryCategory,
)
    ensures
        !before.remove(entry_path(key, category)).contains_key(entry_path(key, category)),
{
}

/// One tracked git repository.
pub struct Entry {
    /// The name of the repository.
    pub name: String,
    /// The path of the repository's root directory.
    pub path: String,
    /// When the entry was made.
    pub created: String,
    /// When the entry was last refreshed.
    pub updated: String,
}

impl View for Entry {
    type V = EntryView;

    open spec fn view(&self) -> EntryView {
        EntryView {
            name: self.name@,
            path: self.path@,
            created: self.created@,
            updated: self.updated@,
        }
    }
}

/// Relies on chrono's `Utc::now` and `DateTime::to_rfc2822`: the current time
/// as RFC 2822 text. Nothing is assumed of its value.
#[verifier::external_body]
fn utc_now_rfc2822() -> String {
    chrono::Utc::now().to_rfc2822()
}

impl Entry {
    /// A new entry for the repository `name` at `path`, made now.
    pub fn new(name: &str, path: &str) -> (r: Entry)
        ensures
            r@.name == name@,
            r@.path == path@,
            r@.created == r@.updated,
    {
        let now = utc_now_rfc2822();
        Entry { name: name.to_owned(), path: path.to_owned(), created: now.clone(), updated: now }
    }

    /// Refreshes the update time, and nothing else.
    pub fn update(&mut self)
        ensures
            final(self)@.name == old(self)@.name,
            final(self)@.path == old(self)@.path,
            final(self)@.created == old(self)@.created,
    {
        self.updated = utc_now_rfc2822();
    }
}

/// The field name of an entry's name.
fn name_key() -> (r: String)
    ensures
        r@ == name_field(),
{
    proof {
        reveal_strlit("name");
    }
    assert("name"@ =~= name_field());
    "name".to_owned()
}

/// The field name of an entry's path.
fn path_key() -> (r: String)
    ensures
        r@ == path_field(),
{
    proof {
        reveal_strlit("path");
    }
    assert("path"@ =~= path_field());
    "path".to_owned()
}

/// The field name of an entry's creation time.
fn created_key() -> (r: String)
    ensures
        r@ == created_field(),
{
    proof {
        reveal_strlit("created");
    }
    assert("created"@ =~= created_field());
    "created".to_owned()
}

/// The field name of an entry's update time.
fn updated_key() -> (r: String)
    ensures
        r@ == updated_field(),
{
    proof {
        reveal_strlit("updated");
    }
    assert("updated"@ =~= updated_field());
    "updated".to_owned()
}

proof fn lemma_lookup_step(t: Fields, i: int, k: Seq<char>)
    requires
        0 <= i < t.len(),
    ensures
        t[i].0 == k ==> field_lookup(t.subrange(i, t.len() as int), k) == Some(t[i].1),
        t[i].0 != k ==> field_lookup(t.subrange(i, t.len() as int), k) == field_lookup(
            t.subrange(i + 1, t.len() as int),
            k,
        ),
{
    assert(t.subrange(i, t.len() as int).drop_first() =~= t.subrange(i + 1, t.len() as int));
}

/// The value of the first field of `t` named `k`.
pub fn lookup_field(t: &Vec<(String, String)>, k: &str) -> (r: Option<String>)
    ensures
        match r {
            Some(v) => field_lookup(fields_view(t@), k@) == Some(v@),
            None => field_lookup(fields_view(t@), k@) is None,
        },
{
    let ghost fv = fields_view(t@);
    assert(fv.subrange(0, fv.len() as int) =~= fv);
    let mut i: usize = 0;
    while i < t.len()
        invariant
            fv == fields_view(t@),
            i <= t@.len(),
            field_lookup(fv, k@) == field_lookup(fv.subrange(i as int, fv.len() as int), k@),
        decreases t@.len() - i,
    {
        proof {
            lemma_lookup_step(fv, i as int, k@);
        }
        if str_eq(t[i].0.as_str(), k) {
            return Some(t[i].1.clone());
        }
        i = i + 1;
    }
    assert(fv.subrange(i as int, fv.len() as int).len() == 0);
    None
}

impl Entry {
    /// The record this entry is stored as.
    pub fn to_fields(&self) -> (r: Vec<(String, String)>)
        ensures
            fields_view(r@) == encode_spec(self@),
    {
        let mut r: Vec<(String, String)> = Vec::new();
        r.push((name_key(), self.name.clone()));
        r.push((path_key(), self.path.clone()));
        r.push((created_key(), self.created.clone()));
        r.push((updated_key(), self.updated.clone()));
        assert(fields_view(r@) =~= encode_spec(self@));
        r
    }

    /// The entry a stored record describes, if it is one.
    pub fn from_fields(t: &Vec<(String, String)>) -> (r: Option<Entry>)
        ensures
            match r {
                Some(e) => decode_spec(fields_view(t@)) == Some(e@),
                None => decode_spec(fields_view(t@)) is None,
            },
    {
        let name = lookup_field(t, name_key().as_str());
        let path = lookup_field(t, path_key().as_str());
        let updated = lookup_field(t, updated_key().as_str());
        let created = lookup_field(t, created_key().as_str());
        match (name, path, updated) {
            (Some(name), Some(path), Some(updated)) => {
                let created = match created {
                    Some(c) => c,
                    None => updated.clone(),
                };
                Some(Entry { name, path, created, updated })
            },
            _ => None,
        }
    }
}

/// What can go wrong when the configuration is changed. Each error carries
/// the key or the description it concerns.
#[derive(Debug, PartialEq, Eq)]
pub enum ConfigureContentError {
    /// An entry was to move to the category it is already in.
    BadPosition(String),
    /// A stored record does not describe an entry.
    DecodingError(String),
    /// The configuration could not be written out.
    EncodingError(String),
    /// The configuration's own data structures failed.
    InternalError(String),
    /// The key that was to be added is already there.
    KeyAlreadyExists(String),
    /// The key that was to be removed is not there.
    UnknownKey(String),
}

impl ConfigureContentError {
    /// The key or description that the error carries.
    pub fn message(&self) -> (r: String)
        ensures
            r@ == error_message(*self),
    {
        match self {
            ConfigureContentError::BadPosition(e) => e.clone(),
            ConfigureContentError::DecodingError(e) => e.clone(),
            ConfigureContentError::EncodingError(e) => e.clone(),
            ConfigureContentError::InternalError(e) => e.clone(),
            ConfigureContentError::KeyAlreadyExists(e) => e.clone(),
            ConfigureContentError::UnknownKey(e) => e.clone(),
        }
    }
}

/// The key or description that an error carries.
pub open spec fn error_message(e: ConfigureContentError) -> Seq<char> {
    match e {
        ConfigureContentError::BadPosition(s) => s@,
        ConfigureContentError::DecodingError(s) => s@,
        ConfigureContentError::EncodingError(s) => s@,
        ConfigureContentError::InternalError(s) => s@,
        ConfigureContentError::KeyAlreadyExists(s) => s@,
        ConfigureContentError::UnknownKey(s) => s@,
    }
}

/// `r` failed because the key `p` already exists.
pub open spec fn is_key_exists<T>(r: Result<T, ConfigureContentError>, p: Seq<char>) -> bool {
    match r {
        Err(ConfigureContentError::KeyAlreadyExists(s)) => s@ == p,
        _ => false,
    }
}

/// `r` failed because the key `p` does not exist.
pub open spec fn is_unknown_key<T>(r: Result<T, ConfigureContentError>, p: Seq<char>) -> bool {
    match r {
        Err(ConfigureContentError::UnknownKey(s)) => s@ == p,
        _ => false,
    }
}

/// `after` is `before` with the entry stored under `from` moved to `to`,
/// its name, path and creation time kept.
pub open spec fn moved_entry(
    before: Map<Seq<char>, Fields>,
    after: Map<Seq<char>, Fields>,
    from: Seq<char>,
    to: Seq<char>,
) -> bool {
    &&& after.contains_key(to)
    &&& after.remove(to) == before.remove(from)
    &&& match (decode_spec(before[from]), decode_spec(after[to])) {
        (Some(a), Some(b)) => {
            &&& after[to] == encode_spec(b)
            &&& b.name == a.name
            &&& b.path == a.path
            &&& b.created == a.created
        },
        _ => false,
    }
}

/// The operations on a category-keyed store of entries.
pub trait ConfigureContent: View<V = Map<Seq<char>, Fields>> + Sized {
    /// The store's internal invariant.
    spec fn valid(&self) -> bool;

    /// The full key of the entry `key` in `category`.
    fn get_entry_path(&self, key: &str, category: &EntryCategory) -> (r: String)
        ensures
            r@ == entry_path(key@, *category),
    ;

    /// Adds `entry_value`, with a refreshed update time, under `key` in
    /// `category`, unless that key is taken.
    fn add_entry(&mut self, key: &str, entry_value: &mut Entry, category: &EntryCategory) -> (r:
        Result<(), ConfigureContentError>)
        requires
            old(self).valid(),
        ensures
            final(self).valid(),
            old(self)@.contains_key(entry_path(key@, *category)) ==> {
                &&& is_key_exists(r, entry_path(key@, *category))
                &&& final(self)@ == old(self)@
                &&& *final(entry_value) == *old(entry_value)
            },
            !old(self)@.contains_key(entry_path(key@, *category)) ==> {
                &&& r is Ok
                &&& final(entry_value)@.name == old(entry_value)@.name
                &&& final(entry_value)@.path == old(entry_value)@.path
                &&& final(entry_value)@.created == old(entry_value)@.created
                &&& final(self)@ == old(self)@.insert(
                    entry_path(key@, *category),
                    encode_spec(final(entry_value)@),
                )
            },
    ;

    /// Takes out the record stored under `key` in `category`.
    fn remove_entry(&mut self, key: &str, category: &EntryCategory) -> (r: Result<
        Vec<(String, String)>,
        ConfigureContentError,
    >)
        requires
            old(self).valid(),
        ensures
            final(self).valid(),
            !old(self)@.contains_key(entry_path(key@, *category)) ==> {
                &&& is_unknown_key(r, entry_path(key@, *category))
                &&& final(self)@ == old(self)@
            },
            old(self)@.contains_key(entry_path(key@, *category)) ==> {
                &&& r is Ok
                &&& fields_view(r->Ok_0@) == old(self)@[entry_path(key@, *category)]
                &&& final(self)@ == old(self)@.remove(entry_path(key@, *category))
            },
    ;

    /// Moves the entry `key` from `old_category` to `new_category`. On any
    /// error the store is left as it was.
    fn transfer_entry(
        &mut self,
        key: &str,
        old_category: &EntryCategory,
        new_category: &EntryCategory,
    ) -> (r: Result<(), ConfigureContentError>)
        requires
            old(self).valid(),
        ensures
            final(self).valid(),
            r is Err ==> final(self)@ == old(self)@,
            *old_category == *new_category ==> r matches Err(ConfigureContentError::BadPosition(_)),
            *old_category != *new_category && !old(self)@.contains_key(
                entry_path(key@, *old_category),
            ) ==> is_unknown_key(r, entry_path(key@, *old_category)),
            *old_category != *new_category && old(self)@.contains_key(
                entry_path(key@, *old_category),
            ) && decode_spec(old(self)@[entry_path(key@, *old_category)]) is None ==> r matches Err(
                ConfigureContentError::DecodingError(_),
            ),
            *old_category != *new_category && old(self)@.contains_key(
                entry_path(key@, *old_category),
            ) && decode_spec(old(self)@[entry_path(key@, *old_category)]) is Some && old(
                self,
            )@.contains_key(entry_path(key@, *new_category)) ==> is_key_exists(
                r,
                entry_path(key@, *new_category),
            ),
            *old_category != *new_category && old(self)@.contains_key(
                entry_path(key@, *old_category),
            ) && decode_spec(old(self)@[entry_path(key@, *old_category)]) is Some && !old(
                self,
            )@.contains_key(entry_path(key@, *new_category)) ==> {
                &&& r is Ok
                &&& moved_entry(
                    old(self)@,
                    final(self)@,
                    entry_path(key@, *old_category),
                    entry_path(key@, *new_category),
                )
            },
    ;
}

impl ConfigureContent for ConfigurationContent {
    open spec fn valid(&self) -> bool {
        self.well_formed()
    }

    fn get_entry_path(&self, key: &str, category: &EntryCategory) -> (r: String) {
        let mut r = category.namespace().to_owned();
        let dot = ".";
        proof {
            reveal_strlit(".");
        }
        r.append(dot);
        r.append(key);
        assert(r@ =~= entry_path(key@, *category));
        r
    }

    fn add_entry(&mut self, key: &str, entry_value: &mut Entry, category: &EntryCategory) -> (r:
        Result<(), ConfigureContentError>) {
        let entry_path_name = self.get_entry_path(key, category);
        if self.contains_key(entry_path_name.as_str()) {
            return Err(ConfigureContentError::KeyAlreadyExists(entry_path_name));
        }
        entry_value.update();
        let inserted = self.try_insert(entry_path_name, entry_value.to_fields());
        assert(inserted);
        Ok(())
    }

    fn remove_entry(&mut self, key: &str, category: &EntryCategory) -> (r: Result<
        Vec<(String, String)>,
        ConfigureContentError,
    >) {
        let entry_path_name = self.get_entry_path(key, category);
        match self.remove(entry_path_name.as_str()) {
            Some(value) => Ok(value),
            None => Err(ConfigureContentError::UnknownKey(entry_path_name)),
        }
    }

    fn transfer_entry(
        &mut self,
        key: &str,
        old_category: &EntryCategory,
        new_category: &EntryCategory,
    ) -> (r: Result<(), ConfigureContentError>) {
        if *old_category == *new_category {
            return Err(ConfigureContentError::BadPosition("entry categories are equal".to_owned()));
        }
        let old_path = self.get_entry_path(key, old_category);
        let new_path = self.get_entry_path(key, new_category);
        proof {
            lemma_entry_path_distinct(key@, *old_category, key@, *new_category);
        }
        let decoded = match self.get(old_path.as_str()) {
            None => return Err(ConfigureContentError::UnknownKey(old_path)),
            Some(record) => Entry::from_fields(record),
        };
        let mut entry = match decoded {
            None => {
                let message = "can not decode the record stored under ".to_owned().concat(
                    old_path.as_str(),
                );
                return Err(ConfigureContentError::DecodingError(message));
            },
            Some(e) => e,
        };
        if self.contains_key(new_path.as_str()) {
            return Err(ConfigureContentError::KeyAlreadyExists(new_path));
        }
        let ghost before = self@;
        let _ = self.remove(old_path.as_str());
        let added = self.add_entry(key, &mut entry, new_category);
        proof {
            lemma_entry_round_trip(entry@);
            assert(self@.remove(new_path@) =~= before.remove(old_path@));
        }
        added
    }
}

/// `k` is a full key in the namespace of `c`.
pub open spec fn key_in(k: Seq<char>, c: EntryCategory) -> bool {
    let p = namespace_of(c) + seq!['.'];
    p.len() <= k.len() && k.subrange(0, p.len() as int) == p
}

/// The entries stored in the namespace of `c`, in the order of `s`; records
/// there that are no entries are passed over.
pub open spec fn category_entries(s: Seq<(Seq<char>, Fields)>, c: EntryCategory) -> Seq<EntryView>
    decreases s.len(),
{
    if s.len() == 0 {
        Seq::empty()
    } else if key_in(s.last().0, c) && decode_spec(s.last().1) is Some {
        category_entries(s.drop_last(), c).push(decode_spec(s.last().1)->0)
    } else {
        category_entries(s.drop_last(), c)
    }
}

/// Whether `s` begins with `p`.
pub fn has_prefix(s: &str, p: &str) -> (r: bool)
    ensures
        r == (p@.len() <= s@.len() && s@.subrange(0, p@.len() as int) == p@),
{
    let n = s.unicode_len();
    let m = p.unicode_len();
    if m > n {
        return false;
    }
    let mut i: usize = 0;
    while i < m
        invariant
            n == s@.len(),
            m == p@.len(),
            m <= n,
            i <= m,
            forall|j: int| 0 <= j < i ==> s@[j] == p@[j],
        decreases m - i,
    {
        if s.get_char(i) != p.get_char(i) {
            assert(s@.subrange(0, m as int)[i as int] != p@[i as int]);
            return false;
        }
        i = i + 1;
    }
    assert(s@.subrange(0, m as int) =~= p@);
    true
}

impl ConfigurationContent {
    /// The entries stored in the namespace of `category`, in the order they
    /// were added.
    pub fn entries_of(&self, category: &EntryCategory) -> (r: Vec<Entry>)
        ensures
            r@.map_values(|e: Entry| e@) == category_entries(self.items_view(), *category),
    {
        let items = self.items();
        let ghost all = self.items_view();
        let mut prefix = category.namespace().to_owned();
        proof {
            reveal_strlit(".");
        }
        prefix.append(".");
        assert(prefix@ =~= namespace_of(*category) + seq!['.']);
        let mut r: Vec<Entry> = Vec::new();
        let mut i: usize = 0;
        while i < items.len()
            invariant
                all == self.items_view(),
                crate::content::doc_view(items@) == all,
                prefix@ == namespace_of(*category) + seq!['.'],
                i <= items@.len(),
                r@.map_values(|e: Entry| e@) == category_entries(all.subrange(0, i as int), *category),
            decreases items@.len() - i,
        {
            assert(all.subrange(0, i as int + 1).drop_last() =~= all.subrange(0, i as int));
            let ghost before = r@;
            if has_prefix(items[i].0.as_str(), prefix.as_str()) {
                match Entry::from_fields(&items[i].1) {
                    Some(e) => {
                        let ghost ev = e@;
                        r.push(e);
                        assert(r@.map_values(|e: Entry| e@) =~= before.map_values(|e: Entry| e@).push(ev));
                    },
                    None => {},
                }
            }
            i = i + 1;
        }
        assert(all.subrange(0, i as int) =~= all);
        r
    }
}

/// The category that `toggle_entry` moves the entry `key` out of: watched
/// when it is stored as watched, ignored otherwise.
pub open spec fn toggle_source(m: Map<Seq<char>, Fields>, key: Seq<char>) -> EntryCategory {
    if m.contains_key(entry_path(key, EntryCategory::Watched)) {
        EntryCategory::Watched
    } else {
        EntryCategory::Ignored
    }
}

/// The other one of watched and ignored.
pub open spec fn toggle_target(c: EntryCategory) -> EntryCategory {
    if c == EntryCategory::Watched {
        EntryCategory::Ignored
    } else {
        EntryCategory::Watched
    }
}

impl ConfigurationContent {
    /// Moves the entry `key` from watched to ignored, or from ignored to
    /// watched, and gives the category it went to.
    pub fn toggle_entry(&mut self, key: &str) -> (r: Result<EntryCategory, ConfigureContentError>)
        requires
            old(self).valid(),
        ensures
            final(self).valid(),
            ({
                let from = entry_path(key@, toggle_source(old(self)@, key@));
                let to = entry_path(key@, toggle_target(toggle_source(old(self)@, key@)));
                &&& (r is Ok) == (old(self)@.contains_key(from) && decode_spec(old(self)@[from]) is Some
                    && !old(self)@.contains_key(to))
                &&& r is Ok ==> r->Ok_0 == toggle_target(toggle_source(old(self)@, key@))
                    && moved_entry(old(self)@, final(self)@, from, to)
                &&& r is Err ==> final(self)@ == old(self)@
            }),
    {
        let watched = self.get_entry_path(key, &EntryCategory::Watched);
        let (from, to) = if self.contains_key(watched.as_str()) {
            (EntryCategory::Watched, EntryCategory::Ignored)
        } else {
            (EntryCategory::Ignored, EntryCategory::Watched)
        };
        match self.transfer_entry(key, &from, &to) {
            Ok(()) => Ok(to),
            Err(e) => Err(e),
        }
    }
}

} // verus!
