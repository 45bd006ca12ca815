use vstd::prelude::*;
use crate::configuration::{Fields, fields_view};

verus! {

/// The map that a list of (key, record) pairs stands for; a later pair wins
/// over an earlier one with the same key.
pub open spec fn items_map(s: Seq<(Seq<char>, Fields)>) -> Map<Seq<char>, Fields>
    decreases s.len(),
{
    if s.len() == 0 {
        Map::empty()
    } else {
        items_map(s.drop_last()).insert(s.last().0, s.last().1)
    }
}

/// The characters of a list of (key, record) pairs.
pub open spec fn doc_view(d: Seq<(String, Vec<(String, String)>)>) -> Seq<(Seq<char>, Fields)> {
    d.map_values(|p: (String, Vec<(String, String)>)| (p.0@, fields_view(p.1@)))
}

/// No key occurs twice in the list.
pub open spec fn keys_distinct(s: Seq<(Seq<char>, Fields)>) -> bool {
    forall|i: int, j: int| 0 <= i < s.len() && 0 <= j < s.len() && i != j ==> s[i].0 != s[j].0
}

proof fn lemma_map_absent(s: Seq<(Seq<char>, Fields)>, k: Seq<char>)
    requires
        forall|i: int| 0 <= i < s.len() ==> s[i].0 != k,
    ensures
        !items_map(s).contains_key(k),
    decreases s.len(),
{
    if s.len() > 0 {
        lemma_map_absent(s.drop_last(), k);
    }
}

proof fn lemma_map_index(s: Seq<(Seq<char>, Fields)>, i: int)
    requires
        keys_distinct(s),
        0 <= i < s.len(),
    ensures
        items_map(s).contains_key(s[i].0),
        items_map(s)[s[i].0] == s[i].1,
    decreases s.len(),
{
    if i < s.len() - 1 {
        let t = s.drop_last();
        assert(keys_distinct(t));
        lemma_map_index(t, i);
        assert(s.last().0 != s[i].0);
    }
}

proof fn lemma_map_remove(s: Seq<(Seq<char>, Fields)>, i: int)
    requires
        keys_distinct(s),
        0 <= i < s.len(),
    ensures
        items_map(s.remove(i)) =~= items_map(s).remove(s[i].0),
    decreases s.len(),
{
    let t = s.drop_last();
    assert(keys_distinct(t));
    if i == s.len() - 1 {
        assert(s.remove(i) =~= t);
        lemma_map_absent(t, s[i].0);
    } else {
        assert(keys_distinct(t.remove(i)));
        lemma_map_remove(t, i);
        assert(s.remove(i) =~= t.remove(i).push(s.last()));
        assert(s.remove(i).drop_last() =~= t.remove(i));
        assert(s.last().0 != s[i].0);
    }
}

/// The configuration: records keyed by full entry keys (`watched.name`) or by
/// bare namespace keys (`watched`).
pub struct ConfigurationContent {
    items: Vec<(String, Vec<(String, String)>)>,
}

impl View for ConfigurationContent {
    type V = Map<Seq<char>, Fields>;

    closed spec fn view(&self) -> Map<Seq<char>, Fields> {
        items_map(self.items_view())
    }
}

impl ConfigurationContent {
    /// The stored pairs, as characters, in the order they were added.
    pub closed spec fn items_view(&self) -> Seq<(Seq<char>, Fields)> {
        doc_view(self.items@)
    }

    /// No key is stored twice.
    pub closed spec fn well_formed(&self) -> bool {
        keys_distinct(self.items_view())
    }

    /// An empty configuration.
    pub fn new() -> (r: ConfigurationContent)
        ensures
            r.well_formed(),
            r@ == Map::<Seq<char>, Fields>::empty(),
    {
        let r = ConfigurationContent { items: Vec::new() };
        assert(r.items_view() =~= Seq::<(Seq<char>, Fields)>::empty());
        r
    }

    /// A configuration holding the given pairs.
    pub fn from_items(items: Vec<(String, Vec<(String, String)>)>) -> (r: ConfigurationContent)
        requires
            keys_distinct(doc_view(items@)),
        ensures
            r.well_formed(),
            r@ == items_map(doc_view(items@)),
    {
        ConfigurationContent { items }
    }

    /// The stored pairs, in the order they were added.
    pub fn items(&self) -> (r: &Vec<(String, Vec<(String, String)>)>)
        ensures
            doc_view(r@) == self.items_view(),
            items_map(doc_view(r@)) == self@,
            self.well_formed() ==> keys_distinct(doc_view(r@)),
    {
        &self.items
    }

    /// The position of `key` among the stored pairs.
    fn find(&self, key: &str) -> (r: Option<usize>)
        requires
            self.well_formed(),
        ensures
            match r {
                Some(i) => i < self.items_view().len() && self.items_view()[i as int].0 == key@,
                None => !self@.contains_key(key@),
            },
    {
        let mut i: usize = 0;
        while i < self.items.len()
            invariant
                i <= self.items@.len(),
                forall|j: int| 0 <= j < i ==> self.items_view()[j].0 != key@,
            decreases self.items@.len() - i,
        {
            if crate::configuration::str_eq(self.items[i].0.as_str(), key) {
                return Some(i);
            }
            i = i + 1;
        }
        proof {
            lemma_map_absent(self.items_view(), key@);
        }
        None
    }

    /// Whether a record is stored under `key`.
    pub fn contains_key(&self, key: &str) -> (r: bool)
        requires
            self.well_formed(),
        ensures
            r == self@.contains_key(key@),
    {
        match self.find(key) {
            Some(i) => {
                proof {
                    lemma_map_index(self.items_view(), i as int);
                }
                true
            },
            None => false,
        }
    }

    /// The record stored under `key`, if any.
    pub fn get(&self, key: &str) -> (r: Option<&Vec<(String, String)>>)
        requires
            self.well_formed(),
        ensures
            r is Some <==> self@.contains_key(key@),
            r is Some ==> fields_view(r->0@) == self@[key@],
    {
        match self.find(key) {
            Some(i) => {
                proof {
                    lemma_map_index(self.items_view(), i as int);
                }
                Some(&self.items[i].1)
            },
            None => None,
        }
    }

    /// The stored keys, in the order they were added.
    pub fn keys(&self) -> (r: Vec<String>)
        ensures
            r@.len() == self.items_view().len(),
            forall|i: int| 0 <= i < r@.len() ==> r@[i]@ == self.items_view()[i].0,
    {
        let mut r: Vec<String> = Vec::new();
        let mut i: usize = 0;
        while i < self.items.len()
            invariant
                i <= self.items@.len(),
                r@.len() == i,
                forall|j: int| 0 <= j < i ==> r@[j]@ == self.items_view()[j].0,
            decreases self.items@.len() - i,
        {
            r.push(self.items[i].0.clone());
            i = i + 1;
        }
        r
    }

    /// Stores `value` under `key` if nothing is stored there yet; returns
    /// whether it did.
    pub fn try_insert(&mut self, key: String, value: Vec<(String, String)>) -> (r: bool)
        requires
            old(self).well_formed(),
        ensures
            final(self).well_formed(),
            r == !old(self)@.contains_key(key@),
            r ==> final(self)@ == old(self)@.insert(key@, fields_view(value@)),
            !r ==> final(self)@ == old(self)@,
    {
        if self.contains_key(key.as_str()) {
            return false;
        }
        proof {
            assert forall|i: int| 0 <= i < self.items_view().len() implies self.items_view()[i].0 != key@ by {
                lemma_map_index(self.items_view(), i);
            }
        }
        let ghost before = self.items_view();
        let ghost kv = key@;
        let ghost fv = fields_view(value@);
        self.items.push((key, value));
        assert(self.items_view() =~= before.push((kv, fv)));
        assert(self.items_view().drop_last() =~= before);
        true
    }

    /// Takes out the record stored under `key`, if any.
    pub fn remove(&mut self, key: &str) -> (r: Option<Vec<(String, String)>>)
        requires
            old(self).well_formed(),
        ensures
            final(self).well_formed(),
            r is Some <==> old(self)@.contains_key(key@),
            r is Some ==> fields_view(r->0@) == old(self)@[key@],
            final(self)@ == old(self)@.remove(key@),
    {
        match self.find(key) {
            Some(i) => {
                let ghost before = self.items_view();
                proof {
                    lemma_map_index(before, i as int);
                    lemma_map_remove(before, i as int);
                }
                let (_, v) = self.items.remove(i);
                assert(self.items_view() =~= before.remove(i as int));
                Some(v)
            },
            None => {
                assert(old(self)@.remove(key@) =~= old(self)@);
                None
            },
        }
    }
}

} // verus!
