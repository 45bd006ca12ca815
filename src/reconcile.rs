use vstd::prelude::*;
use crate::configuration::{
    ConfigureContent, ConfigureContentError, Entry, EntryCategory, decode_spec, entry_path,
    is_key_exists,
};
use crate::content::ConfigurationContent;
use crate::scan::{last_component, repository_name};

verus! {

/// What became of one discovered repository.
#[derive(Debug, Clone, Copy, PartialEq, Eq, Structural)]
pub enum ScanOutcome {
    /// Its name is already stored as watched or ignored.
    AlreadyTracked,
    /// It is new, and was only reported.
    Reported,
    /// It is new, and was added to the default category.
    Added,
    /// It is new, and adding it failed.
    AddFailed,
}

/// One discovered repository and what became of it.
pub struct DiscoveredRepository {
    /// Its name: the last component of its path.
    pub name: String,
    /// Its path.
    pub path: String,
    /// What became of it.
    pub outcome: ScanOutcome,
    /// Why adding it failed, if it did.
    pub error: Option<ConfigureContentError>,
}

/// A repository of this name is stored as watched or ignored.
pub open spec fn is_tracked(keys: Set<Seq<char>>, name: Seq<char>) -> bool {
    keys.contains(entry_path(name, EntryCategory::Watched)) || keys.contains(
        entry_path(name, EntryCategory::Ignored),
    )
}

/// One step of reconciliation over the stored keys: the keys after it and
/// the outcome for the repository named `name`.
pub open spec fn reconcile_step(
    keys: Set<Seq<char>>,
    name: Seq<char>,
    category: EntryCategory,
    diff_only: bool,
) -> (Set<Seq<char>>, ScanOutcome) {
    if is_tracked(keys, name) {
        (keys, ScanOutcome::AlreadyTracked)
    } else if diff_only {
        (keys, ScanOutcome::Reported)
    } else if keys.contains(entry_path(name, category)) {
        (keys, ScanOutcome::AddFailed)
    } else {
        (keys.insert(entry_path(name, category)), ScanOutcome::Added)
    }
}

/// Reconciliation of the repositories named `names`, in order, against the
/// stored keys: the keys after it and the outcome for each repository.
pub open spec fn reconcile_run(
    keys: Set<Seq<char>>,
    names: Seq<Seq<char>>,
    category: EntryCategory,
    diff_only: bool,
) -> (Set<Seq<char>>, Seq<ScanOutcome>)
    decreases names.len(),
{
    if names.len() == 0 {
        (keys, Seq::empty())
    } else {
        let prev = reconcile_run(keys, names.drop_last(), category, diff_only);
        let step = reconcile_step(prev.0, names.last(), category, diff_only);
        (step.0, prev.1.push(step.1))
    }
}

/// The names of the repositories at the given paths.
pub open spec fn names_of(paths: Seq<String>) -> Seq<Seq<char>> {
    paths.map_values(|p: String| last_component(p@))
}

proof fn lemma_run_len(keys: Set<Seq<char>>, names: Seq<Seq<char>>, category: EntryCategory, diff_only: bool)
    ensures
        reconcile_run(keys, names, category, diff_only).1.len() == names.len(),
    decreases names.len(),
{
    if names.len() > 0 {
        lemma_run_len(keys, names.drop_last(), category, diff_only);
    }
}

proof fn lemma_run_grows(keys: Set<Seq<char>>, names: Seq<Seq<char>>, category: EntryCategory, diff_only: bool)
    ensures
        keys.subset_of(reconcile_run(keys, names, category, diff_only).0),
    decreases names.len(),
{
    if names.len() > 0 {
        lemma_run_grows(keys, names.drop_last(), category, diff_only);
    }
}

proof fn lemma_run_tracks_all(keys: Set<Seq<char>>, names: Seq<Seq<char>>, category: EntryCategory)
    requires
        category == EntryCategory::Watched || category == EntryCategory::Ignored,
    ensures
        forall|i: int|
            0 <= i < names.len() ==> is_tracked(reconcile_run(keys, names, category, false).0, #[trigger] names[i]),
    decreases names.len(),
{
    if names.len() > 0 {
        let prev = names.drop_last();
        lemma_run_tracks_all(keys, prev, category);
        let before = reconcile_run(keys, prev, category, false).0;
        let after = reconcile_run(keys, names, category, false).0;
        assert(before.subset_of(after));
        assert forall|i: int| 0 <= i < names.len() implies is_tracked(after, #[trigger] names[i]) by {
            if i < names.len() - 1 {
                assert(names[i] == prev[i]);
            }
        }
    }
}

proof fn lemma_run_all_known(keys: Set<Seq<char>>, names: Seq<Seq<char>>, category: EntryCategory, diff_only: bool)
    requires
        forall|i: int| 0 <= i < names.len() ==> is_tracked(keys, #[trigger] names[i]),
    ensures
        reconcile_run(keys, names, category, diff_only).0 == keys,
        forall|i: int|
            0 <= i < names.len() ==> #[trigger] reconcile_run(keys, names, category, diff_only).1[i]
                == ScanOutcome::AlreadyTracked,
    decreases names.len(),
{
    if names.len() > 0 {
        let prev = names.drop_last();
        assert forall|i: int| 0 <= i < prev.len() implies is_tracked(keys, #[trigger] prev[i]) by {
            assert(prev[i] == names[i]);
        }
        lemma_run_all_known(keys, prev, category, diff_only);
        lemma_run_len(keys, prev, category, diff_only);
        assert(is_tracked(keys, names[names.len() - 1]));
        let run = reconcile_run(keys, names, category, diff_only);
        let run_prev = reconcile_run(keys, prev, category, diff_only);
        assert forall|i: int| 0 <= i < names.len() implies #[trigger] run.1[i]
            == ScanOutcome::AlreadyTracked by {
            if i < names.len() - 1 {
                assert(run.1[i] == run_prev.1[i]);
            }
        }
    }
}

/// Reconciling the same repositories a second time, after a run that added
/// them to watched or ignored, finds every one of them already there, and
/// leaves the stored keys as they are.
pub proof fn lemma_reconcile_twice(keys: Set<Seq<char>>, names: Seq<Seq<char>>, category: EntryCategory)
    requires
        category == EntryCategory::Watched || category == EntryCategory::Ignored,
    ensures
        ({
            let first = reconcile_run(keys, names, category, false).0;
            &&& reconcile_run(first, names, category, false).0 == first
            &&& reconcile_run(first, names, category, false).1.len() == names.len()
            &&& forall|i: int|
                0 <= i < names.len() ==> #[trigger] reconcile_run(first, names, category, false).1[i]
                    == ScanOutcome::AlreadyTracked
        }),
{
    let first = reconcile_run(keys, names, category, false).0;
    lemma_run_tracks_all(keys, names, category);
    lemma_run_all_known(first, names, category, false);
    lemma_run_len(first, names, category, false);
}

/// Compares the repositories found on disk with the store. A repository
/// whose name is stored as watched or ignored is already tracked. A new one
/// is only reported when `diff_only` holds; otherwise it is added, as a new
/// entry, under `default_category`. A failure to add one does not stop the
/// others.
pub fn reconcile(
    discovered: &Vec<String>,
    store: &mut ConfigurationContent,
    default_category: &EntryCategory,
    diff_only: bool,
) -> (r: Vec<DiscoveredRepository>)
    requires
        old(store).valid(),
    ensures
        final(store).valid(),
        r@.len() == discovered@.len(),
        final(store)@.dom() == reconcile_run(
            old(store)@.dom(),
            names_of(discovered@),
            *default_category,
            diff_only,
        ).0,
        forall|i: int|
            0 <= i < r@.len() ==> {
                &&& r@[i].name@ == last_component(discovered@[i]@)
                &&& r@[i].path@ == discovered@[i]@
                &&& r@[i].outcome == reconcile_run(
                    old(store)@.dom(),
                    names_of(discovered@),
                    *default_category,
                    diff_only,
                ).1[i]
                &&& (r@[i].outcome == ScanOutcome::AddFailed) == (r@[i].error is Some)
                &&& r@[i].outcome == ScanOutcome::AddFailed ==> is_key_exists(
                    Err::<(), ConfigureContentError>(r@[i].error->0),
                    entry_path(r@[i].name@, *default_category),
                )
                &&& r@[i].outcome == ScanOutcome::Added ==> {
                    &&& final(store)@.contains_key(entry_path(r@[i].name@, *default_category))
                    &&& decode_spec(final(store)@[entry_path(r@[i].name@, *default_category)])
                        matches Some(e) && e.name == r@[i].name@ && e.path == r@[i].path@
                }
            },
        forall|k: Seq<char>|
            #[trigger] old(store)@.contains_key(k) ==> final(store)@.contains_key(k) && final(store)@[k] == old(
                store,
            )@[k],
{
    let ghost names = names_of(discovered@);
    let ghost cat = *default_category;
    let ghost start = store@;
    let mut r: Vec<DiscoveredRepository> = Vec::new();
    let mut i: usize = 0;
    while i < discovered.len()
        invariant
            names == names_of(discovered@),
            cat == *default_category,
            i <= discovered@.len(),
            r@.len() == i,
            store.valid(),
            store@.dom() == reconcile_run(start.dom(), names.subrange(0, i as int), cat, diff_only).0,
            forall|k: Seq<char>|
                #[trigger] start.contains_key(k) ==> store@.contains_key(k) && store@[k] == start[k],
            forall|j: int|
                0 <= j < i ==> {
                    &&& r@[j].name@ == last_component(discovered@[j]@)
                    &&& r@[j].path@ == discovered@[j]@
                    &&& r@[j].outcome == reconcile_run(
                        start.dom(),
                        names.subrange(0, i as int),
                        cat,
                        diff_only,
                    ).1[j]
                    &&& (r@[j].outcome == ScanOutcome::AddFailed) == (r@[j].error is Some)
                    &&& r@[j].outcome == ScanOutcome::AddFailed ==> is_key_exists(
                        Err::<(), ConfigureContentError>(r@[j].error->0),
                        entry_path(r@[j].name@, cat),
                    )
                    &&& r@[j].outcome == ScanOutcome::Added ==> {
                        &&& store@.contains_key(entry_path(r@[j].name@, cat))
                        &&& decode_spec(store@[entry_path(r@[j].name@, cat)]) matches Some(e)
                            && e.name == r@[j].name@ && e.path == r@[j].path@
                    }
                },
            reconcile_run(start.dom(), names.subrange(0, i as int), cat, diff_only).1.len() == i,
        decreases discovered@.len() - i,
    {
        let ghost prefix = names.subrange(0, i as int);
        let ghost next = names.subrange(0, i as int + 1);
        assert(next.drop_last() =~= prefix);
        assert(next.last() == last_component(discovered@[i as int]@));
        let ghost before = store@;
        let ghost run_before = reconcile_run(start.dom(), prefix, cat, diff_only);
        let path = &discovered[i];
        let name = repository_name(path.as_str());
        let watched_key = store.get_entry_path(name.as_str(), &EntryCategory::Watched);
        let ignored_key = store.get_entry_path(name.as_str(), &EntryCategory::Ignored);
        let known = store.contains_key(watched_key.as_str()) || store.contains_key(
            ignored_key.as_str(),
        );
        let (outcome, error) = if known {
            (ScanOutcome::AlreadyTracked, None)
        } else if diff_only {
            (ScanOutcome::Reported, None)
        } else {
            let mut entry = Entry::new(name.as_str(), path.as_str());
            match store.add_entry(name.as_str(), &mut entry, default_category) {
                Ok(()) => {
                    proof {
                        crate::configuration::lemma_entry_round_trip(entry@);
                        assert(!before.contains_key(entry_path(name@, cat)));
                        assert(store@ == before.insert(
                            entry_path(name@, cat),
                            crate::configuration::encode_spec(entry@),
                        ));
                        assert(store@.dom() =~= before.dom().insert(entry_path(name@, cat)));
                        assert forall|k: Seq<char>| start.contains_key(k) implies store@.contains_key(k)
                            && store@[k] == start[k] by {
                            assert(before.contains_key(k));
                        }
                    }
                    (ScanOutcome::Added, None)
                },
                Err(e) => (ScanOutcome::AddFailed, Some(e)),
            }
        };
        r.push(DiscoveredRepository { name, path: path.clone(), outcome, error });
        proof {
            let run_next = reconcile_run(start.dom(), next, cat, diff_only);
            assert(run_next.1 == run_before.1.push(outcome));
            assert forall|j: int| 0 <= j < i implies run_next.1[j] == run_before.1[j] by {}
        }
        i = i + 1;
    }
    assert(names.subrange(0, i as int) =~= names);
    assert(start == old(store)@);
    r
}

} // verus!
