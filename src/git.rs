use vstd::prelude::*;

verus! {

#[verifier::external_type_specification]
#[verifier::external_body]
pub struct ExRepository(git2::Repository);

#[verifier::external_type_specification]
#[verifier::external_body]
pub struct ExIndex(git2::Index);

#[verifier::external_type_specification]
#[verifier::external_body]
pub struct ExDiff<'repo>(git2::Diff<'repo>);

#[verifier::external_type_specification]
#[verifier::external_body]
pub struct ExReference<'repo>(git2::Reference<'repo>);

/// A git repository opened on disk.
pub struct Repo(pub git2::Repository);

/// Relies on `git2::Repository::open`: the repository at `path`, if one
/// can be opened there.
#[verifier::external_body]
fn open_repository(path: &str) -> Option<git2::Repository> {
    git2::Repository::open(path).ok()
}

/// Relies on `git2::Repository::index`: the repository's index, if it can
/// be read.
#[verifier::external_body]
fn repository_index(repo: &git2::Repository) -> Option<git2::Index> {
    repo.index().ok()
}

/// Relies on `git2::Repository::diff_index_to_workdir`: the differences
/// between `index` and the working directory, if they can be had.
#[verifier::external_body]
fn index_to_workdir<'repo>(repo: &'repo git2::Repository, index: &git2::Index) -> Option<
    git2::Diff<'repo>,
> {
    repo.diff_index_to_workdir(Some(index), None).ok()
}

/// Relies on `git2::Diff::deltas`: how many files the diff holds.
#[verifier::external_body]
fn delta_count(diff: &git2::Diff) -> usize {
    diff.deltas().count()
}

/// Relies on `git2::Repository::path`: the path of the repository's
/// metadata directory, as text.
#[verifier::external_body]
fn repository_path(repo: &git2::Repository) -> String {
    repo.path().to_string_lossy().into_owned()
}

/// Relies on `git2::Repository::is_bare`.
#[verifier::external_body]
fn repository_is_bare(repo: &git2::Repository) -> bool {
    repo.is_bare()
}

/// Relies on `git2::Repository::state`: the operation in progress, written
/// as its variant's name.
#[verifier::external_body]
fn repository_state(repo: &git2::Repository) -> String {
    format!("{:?}", repo.state())
}

/// Relies on `git2::Repository::remotes`: the names of the configured
/// remotes (`None` for one that is not UTF-8), if they can be listed.
#[verifier::external_body]
fn repository_remotes(repo: &git2::Repository) -> Option<Vec<Option<String>>> {
    repo.remotes().ok().map(|names| names.iter().map(|n| n.map(|s| s.to_owned())).collect())
}

/// Relies on `git2::Repository::head`: the current head, if there is one.
#[verifier::external_body]
fn repository_head<'repo>(repo: &'repo git2::Repository) -> Option<git2::Reference<'repo>> {
    repo.head().ok()
}

/// Relies on `git2::Repository::head_detached`: whether HEAD points at a
/// commit rather than a branch, if that can be told.
#[verifier::external_body]
fn repository_head_detached(repo: &git2::Repository) -> Option<bool> {
    repo.head_detached().ok()
}

/// Relies on `git2::Reference::shorthand`: the reference's short name, if
/// it is UTF-8.
#[verifier::external_body]
fn reference_shorthand(reference: &git2::Reference) -> Option<String> {
    reference.shorthand().map(|s| s.to_owned())
}

/// The escape sequence that ends a styled text.
pub open spec fn ansi_reset() -> Seq<char> {
    seq!['\x1B', '[', '0', 'm']
}

/// Relies on ansi_term's `Style::new().italic().paint(..)`: the text between
/// the italic code and the reset code.
#[verifier::external_body]
fn italic_text(s: &str) -> (r: String)
    ensures
        r@ == seq!['\x1B', '[', '3', 'm'] + s@ + ansi_reset(),
{
    ansi_term::Style::new().italic().paint(s).to_string()
}

/// Relies on ansi_term's `Style::new().bold().paint(..)`: the text between
/// the bold code and the reset code.
#[verifier::external_body]
fn bold_text(s: &str) -> (r: String)
    ensures
        r@ == seq!['\x1B', '[', '1', 'm'] + s@ + ansi_reset(),
{
    ansi_term::Style::new().bold().paint(s).to_string()
}

/// The label of a clean repository.
pub open spec fn clean_label() -> Seq<char> {
    seq!['C', 'L', 'E', 'A', 'N']
}

/// The label of a dirty repository.
pub open spec fn dirty_label() -> Seq<char> {
    seq!['D', 'I', 'R', 'T', 'Y']
}

/// Whether a repository is clean, from the number of files that differ
/// between its index and its working directory (`None` when the index or
/// the diff could not be had): clean only when that number is known and 0.
pub fn is_clean_from(delta_count: Option<usize>) -> (r: bool)
    ensures
        r == (delta_count == Some(0usize)),
{
    match delta_count {
        Some(n) => n == 0,
        None => false,
    }
}

/// The label for a repository's cleanliness.
pub fn label_for(clean: bool) -> (r: String)
    ensures
        r@ == (if clean {
            clean_label()
        } else {
            dirty_label()
        }),
{
    if clean {
        let s = "CLEAN";
        proof {
            reveal_strlit("CLEAN");
        }
        assert(s@ =~= clean_label());
        s.to_owned()
    } else {
        let s = "DIRTY";
        proof {
            reveal_strlit("DIRTY");
        }
        assert(s@ =~= dirty_label());
        s.to_owned()
    }
}

/// Whether a repository passes the status filter: its cleanliness matches
/// `want_clean`, or its dirtiness matches `want_dirty`.
pub open spec fn passes_spec(is_clean: bool, want_clean: bool, want_dirty: bool) -> bool {
    is_clean == want_clean || !is_clean == want_dirty
}

/// Whether a repository passes the status filter.
pub fn passes_status_filter(is_clean: bool, want_clean: bool, want_dirty: bool) -> (r: bool)
    ensures
        r == passes_spec(is_clean, want_clean, want_dirty),
{
    is_clean == want_clean || !is_clean == want_dirty
}

/// The paths of the (path, cleanliness) pairs that pass the status filter,
/// in order.
pub open spec fn status_filtered(s: Seq<(Seq<char>, bool)>, want_clean: bool, want_dirty: bool) -> Seq<
    Seq<char>,
>
    decreases s.len(),
{
    if s.len() == 0 {
        Seq::empty()
    } else if passes_spec(s.last().1, want_clean, want_dirty) {
        status_filtered(s.drop_last(), want_clean, want_dirty).push(s.last().0)
    } else {
        status_filtered(s.drop_last(), want_clean, want_dirty)
    }
}

/// The repositories, given as path and cleanliness, that pass the status
/// filter, in order.
pub fn filter_by_status(repos: &Vec<(String, bool)>, want_clean: bool, want_dirty: bool) -> (r: Vec<
    String,
>)
    ensures
        r@.map_values(|x: String| x@) == status_filtered(
            repos@.map_values(|x: (String, bool)| (x.0@, x.1)),
            want_clean,
            want_dirty,
        ),
{
    let ghost all = repos@.map_values(|x: (String, bool)| (x.0@, x.1));
    let mut r: Vec<String> = Vec::new();
    let mut i: usize = 0;
    while i < repos.len()
        invariant
            all == repos@.map_values(|x: (String, bool)| (x.0@, x.1)),
            i <= repos@.len(),
            r@.map_values(|x: String| x@) == status_filtered(
                all.subrange(0, i as int),
                want_clean,
                want_dirty,
            ),
        decreases repos@.len() - i,
    {
        assert(all.subrange(0, i as int + 1).drop_last() =~= all.subrange(0, i as int));
        let ghost before = r@;
        if passes_status_filter(repos[i].1, want_clean, want_dirty) {
            let p = repos[i].0.clone();
            r.push(p);
            assert(r@.map_values(|x: String| x@) =~= before.map_values(|x: String| x@).push(
                repos@[i as int].0@,
            ));
        }
        i = i + 1;
    }
    assert(all.subrange(0, i as int) =~= all);
    r
}

/// What is reported of one repository. Each part was looked up on its own;
/// `remotes` and `head` are `None` where the lookup failed.
pub struct StatusReport {
    pub path: String,
    pub is_bare: bool,
    pub label: String,
    pub state: String,
    pub remotes: Option<Vec<Option<String>>>,
    pub head: Option<String>,
}

/// The lines that list remotes; a name that is not UTF-8 gives none.
pub open spec fn remote_lines(s: Seq<Option<String>>) -> Seq<char>
    decreases s.len(),
{
    if s.len() == 0 {
        Seq::empty()
    } else {
        match s.last() {
            Some(n) => remote_lines(s.drop_last()) + "|\tExisting remote: "@ + n@ + "\n"@,
            None => remote_lines(s.drop_last()),
        }
    }
}

/// `b` as text.
pub open spec fn bool_text(b: bool) -> Seq<char> {
    if b {
        "true"@
    } else {
        "false"@
    }
}

/// One `name: value` line of a status report, the name in bold.
pub open spec fn fact_line(name: Seq<char>, value: Seq<char>) -> Seq<char> {
    "|\t`"@ + seq!['\x1B', '[', '1', 'm'] + name + ansi_reset() + "`: "@ + value + "\n"@
}

/// The first lines of a status report: the path in italics, then whether
/// the repository is bare, its label and its state.
pub open spec fn header_spec(r: StatusReport) -> Seq<char> {
    "----> "@ + seq!['\x1B', '[', '3', 'm'] + r.path@ + ansi_reset() + "\n"@ + fact_line(
        "is bare?"@,
        bool_text(r.is_bare),
    ) + fact_line("label?"@, r.label@) + fact_line("state?"@, r.state@)
}

/// The line that stands for the remotes when none can be shown.
pub open spec fn no_remotes_line() -> Seq<char> {
    "|\tNo remotes to display!\n"@
}

/// The part of a status report on remotes: one line per remote, or a
/// placeholder line when the listing failed or holds no remote to show.
pub open spec fn remotes_spec(remotes: Option<Vec<Option<String>>>) -> Seq<char> {
    match remotes {
        Some(v) => if remote_lines(v@).len() > 0 {
            remote_lines(v@)
        } else {
            no_remotes_line()
        },
        None => no_remotes_line(),
    }
}

/// The part of a status report on the head.
pub open spec fn head_spec(head: Option<String>) -> Seq<char> {
    match head {
        Some(h) => "|\tHead: "@ + h@ + "\n"@,
        None => "|\tNo head to display!\n"@,
    }
}

/// The text of a status report.
pub open spec fn render_spec(r: StatusReport) -> Seq<char> {
    header_spec(r) + remotes_spec(r.remotes) + head_spec(r.head)
}

/// Appends one `name: value` line.
fn push_fact(out: &mut String, name: &str, value: &str)
    ensures
        final(out)@ == old(out)@ + fact_line(name@, value@),
{
    out.append("|\t`");
    out.append(bold_text(name).as_str());
    out.append("`: ");
    out.append(value);
    out.append("\n");
    assert(final(out)@ =~= old(out)@ + fact_line(name@, value@));
}

/// The first lines of a status report.
fn render_header(report: &StatusReport) -> (r: String)
    ensures
        r@ == header_spec(*report),
{
    let mut out = String::new();
    out.append("----> ");
    out.append(italic_text(report.path.as_str()).as_str());
    out.append("\n");
    let bare = if report.is_bare {
        "true"
    } else {
        "false"
    };
    let ghost start = out@;
    assert(start =~= "----> "@ + seq!['\x1B', '[', '3', 'm'] + report.path@ + ansi_reset() + "\n"@);
    push_fact(&mut out, "is bare?", bare);
    push_fact(&mut out, "label?", report.label.as_str());
    push_fact(&mut out, "state?", report.state.as_str());
    out
}

/// Appends the part of a status report on remotes.
fn push_remotes(out: &mut String, remotes: &Option<Vec<Option<String>>>)
    ensures
        final(out)@ == old(out)@ + remotes_spec(*remotes),
{
    let ghost head_part = out@;
    match remotes {
        Some(names) => {
            let mut i: usize = 0;
            let mut shown = false;
            assert(names@.subrange(0, 0) =~= Seq::<Option<String>>::empty());
            assert(out@ =~= head_part + remote_lines(names@.subrange(0, 0)));
            while i < names.len()
                invariant
                    i <= names@.len(),
                    out@ == head_part + remote_lines(names@.subrange(0, i as int)),
                    shown == (remote_lines(names@.subrange(0, i as int)).len() > 0),
                decreases names@.len() - i,
            {
                assert(names@.subrange(0, i as int + 1).drop_last() =~= names@.subrange(0, i as int));
                match &names[i] {
                    Some(n) => {
                        out.append("|\tExisting remote: ");
                        out.append(n.as_str());
                        out.append("\n");
                        shown = true;
                        proof {
                            reveal_strlit("\n");
                        }
                        assert(out@ =~= head_part + remote_lines(names@.subrange(0, i as int + 1)));
                    },
                    None => {},
                }
                i = i + 1;
            }
            assert(names@.subrange(0, i as int) =~= names@);
            if !shown {
                assert(out@ =~= head_part);
                out.append("|\tNo remotes to display!\n");
            }
        },
        None => {
            out.append("|\tNo remotes to display!\n");
        },
    }
}

/// The text of a status report, one fact per line.
pub fn render_status(report: &StatusReport) -> (r: String)
    ensures
        r@ == render_spec(*report),
{
    let mut out = render_header(report);
    push_remotes(&mut out, &report.remotes);
    match &report.head {
        Some(h) => {
            out.append("|\tHead: ");
            out.append(h.as_str());
            out.append("\n");
        },
        None => {
            out.append("|\tNo head to display!\n");
        },
    }
    assert(out@ =~= render_spec(*report));
    out
}

impl Repo {
    /// Opens the repository at `path`, if there is one.
    pub fn open(path: &str) -> (r: Option<Repo>) {
        match open_repository(path) {
            Some(repo) => Some(Repo(repo)),
            None => None,
        }
    }

    /// Whether the working directory matches the index. A repository whose
    /// index or diff cannot be read counts as dirty.
    pub fn is_clean(&self) -> (r: bool) {
        let count = match repository_index(&self.0) {
            Some(index) => match index_to_workdir(&self.0, &index) {
                Some(diff) => Some(delta_count(&diff)),
                None => None,
            },
            None => None,
        };
        is_clean_from(count)
    }

    /// `CLEAN` or `DIRTY`, after `is_clean`.
    pub fn get_label(&self) -> (r: String)
        ensures
            r@ == clean_label() || r@ == dirty_label(),
    {
        label_for(self.is_clean())
    }

    /// The facts that a status report shows, each looked up on its own, with
    /// the label for the given cleanliness.
    pub fn report_for(&self, clean: bool) -> (r: StatusReport)
        ensures
            r.label@ == (if clean {
                clean_label()
            } else {
                dirty_label()
            }),
    {
        StatusReport {
            path: repository_path(&self.0),
            is_bare: repository_is_bare(&self.0),
            label: label_for(clean),
            state: repository_state(&self.0),
            remotes: repository_remotes(&self.0),
            head: self.head_name(),
        }
    }

    /// The short name of the current head; `None` when HEAD is detached,
    /// when that cannot be told, or when there is no head or no UTF-8 name.
    pub fn head_name(&self) -> (r: Option<String>) {
        match repository_head_detached(&self.0) {
            Some(false) => match repository_head(&self.0) {
                Some(reference) => reference_shorthand(&reference),
                None => None,
            },
            _ => None,
        }
    }

    /// The text of this repository's status report.
    pub fn get_status(&self) -> (r: String)
        ensures
            exists|rep: StatusReport|
                r@ == render_spec(rep) && (rep.label@ == clean_label() || rep.label@ == dirty_label()),
    {
        let report = self.report_for(self.is_clean());
        let r = render_status(&report);
        assert(r@ == render_spec(report));
        r
    }
}

/// The report texts kept from per-repository facts, in order: for each
/// repository that was opened, given as its report and its cleanliness, the
/// text of its report when its cleanliness passes the status filter.
pub open spec fn reports_of(
    facts: Seq<Option<(StatusReport, bool)>>,
    want_clean: bool,
    want_dirty: bool,
) -> Seq<Seq<char>>
    decreases facts.len(),
{
    if facts.len() == 0 {
        Seq::empty()
    } else {
        let prev = reports_of(facts.drop_last(), want_clean, want_dirty);
        match facts.last() {
            Some((rep, clean)) => if passes_spec(clean, want_clean, want_dirty) {
                prev.push(render_spec(rep))
            } else {
                prev
            },
            None => prev,
        }
    }
}

/// The report's label is the one for the given cleanliness.
pub open spec fn label_matches(fact: (StatusReport, bool)) -> bool {
    fact.0.label@ == if fact.1 {
        clean_label()
    } else {
        dirty_label()
    }
}

/// The report texts kept from per-repository facts (`None` for a path
/// where no repository could be opened), in order.
pub fn statuses_from_facts(
    facts: &Vec<Option<(StatusReport, bool)>>,
    want_clean: bool,
    want_dirty: bool,
) -> (r: Vec<String>)
    ensures
        r@.map_values(|s: String| s@) == reports_of(facts@, want_clean, want_dirty),
{
    let mut r: Vec<String> = Vec::new();
    let mut i: usize = 0;
    while i < facts.len()
        invariant
            i <= facts@.len(),
            r@.map_values(|s: String| s@) == reports_of(
                facts@.subrange(0, i as int),
                want_clean,
                want_dirty,
            ),
        decreases facts@.len() - i,
    {
        assert(facts@.subrange(0, i as int + 1).drop_last() =~= facts@.subrange(0, i as int));
        let ghost before = r@;
        match &facts[i] {
            Some((report, clean)) => {
                if passes_status_filter(*clean, want_clean, want_dirty) {
                    let text = render_status(report);
                    let ghost tv = text@;
                    r.push(text);
                    assert(r@.map_values(|s: String| s@) =~= before.map_values(|s: String| s@).push(tv));
                }
            },
            None => {},
        }
        i = i + 1;
    }
    assert(facts@.subrange(0, i as int) =~= facts@);
    r
}

/// The status reports of the repositories at `paths` that can be opened and
/// pass the status filter, in the order of `paths`. Each repository's
/// cleanliness is read once; its report carries the label for it.
pub fn get_statuses_from(paths: &Vec<String>, get_only_clean: bool, get_only_dirty: bool) -> (r: Vec<
    String,
>)
    ensures
        exists|facts: Seq<Option<(StatusReport, bool)>>|
            {
                &&& facts.len() == paths@.len()
                &&& r@.map_values(|s: String| s@) == reports_of(facts, get_only_clean, get_only_dirty)
                &&& forall|i: int|
                    0 <= i < facts.len() && #[trigger] facts[i] is Some ==> label_matches(facts[i]->0)
            },
{
    let mut facts: Vec<Option<(StatusReport, bool)>> = Vec::new();
    let mut i: usize = 0;
    while i < paths.len()
        invariant
            i <= paths@.len(),
            facts@.len() == i,
            forall|j: int| 0 <= j < i && #[trigger] facts@[j] is Some ==> label_matches(facts@[j]->0),
        decreases paths@.len() - i,
    {
        match Repo::open(paths[i].as_str()) {
            Some(repo) => {
                let clean = repo.is_clean();
                let report = repo.report_for(clean);
                facts.push(Some((report, clean)));
            },
            None => {
                facts.push(None);
            },
        }
        i = i + 1;
    }
    let r = statuses_from_facts(&facts, get_only_clean, get_only_dirty);
    assert(facts@.len() == paths@.len());
    r
}

} // verus!
