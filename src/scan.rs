use vstd::prelude::*;

verus! {

/// Position `i` of `p` starts a path component that begins with a dot.
/// A lone `.` component is dropped when a path is normalised, unless it
/// opens the path.
pub open spec fn hidden_component_at(p: Seq<char>, i: int) -> bool {
    &&& 0 <= i < p.len()
    &&& p[i] == '.'
    &&& (i == 0 || p[i - 1] == '/')
    &&& !(i > 0 && (i + 1 == p.len() || p[i + 1] == '/'))
}

/// Some component of the path begins with a dot.
pub open spec fn in_hidden_dir(p: Seq<char>) -> bool {
    exists|i: int| hidden_component_at(p, i)
}

/// Whether some directory or file name along `path` begins with a dot.
pub fn is_in_hidden_dir(path: &str) -> (r: bool)
    ensures
        r == in_hidden_dir(path@),
{
    let n = path.unicode_len();
    let mut i: usize = 0;
    while i < n
        invariant
            n == path@.len(),
            i <= n,
            forall|j: int| 0 <= j < i ==> !hidden_component_at(path@, j),
        decreases n - i,
    {
        if path.get_char(i) == '.' {
            let opens = i == 0 || path.get_char(i - 1) == '/';
            let lone = i > 0 && (i + 1 == n || path.get_char(i + 1) == '/');
            if opens && !lone {
                assert(hidden_component_at(path@, i as int));
                return true;
            }
        }
        i = i + 1;
    }
    false
}

/// The paths of `s` that lie under no hidden directory, in order.
pub open spec fn visible_paths(s: Seq<Seq<char>>) -> Seq<Seq<char>>
    decreases s.len(),
{
    if s.len() == 0 {
        Seq::empty()
    } else if in_hidden_dir(s.last()) {
        visible_paths(s.drop_last())
    } else {
        visible_paths(s.drop_last()).push(s.last())
    }
}

/// The characters of a list of strings.
pub open spec fn strings_view(s: Seq<String>) -> Seq<Seq<char>> {
    s.map_values(|x: String| x@)
}

/// The repositories of `git_repositories` that lie under no hidden
/// directory, in their order.
pub fn filter_hidden_repositories<'a>(git_repositories: &'a Vec<String>) -> (r: Vec<&'a String>)
    ensures
        r@.map_values(|x: &String| x@) == visible_paths(strings_view(git_repositories@)),
{
    let ghost all = strings_view(git_repositories@);
    let mut r: Vec<&'a String> = Vec::new();
    let mut i: usize = 0;
    while i < git_repositories.len()
        invariant
            all == strings_view(git_repositories@),
            i <= git_repositories@.len(),
            r@.map_values(|x: &String| x@) == visible_paths(all.subrange(0, i as int)),
        decreases git_repositories@.len() - i,
    {
        let ghost before = r@;
        assert(all.subrange(0, i as int + 1).drop_last() =~= all.subrange(0, i as int));
        let p = &git_repositories[i];
        if !is_in_hidden_dir(p.as_str()) {
            r.push(p);
            assert(r@.map_values(|x: &String| x@) =~= before.map_values(|x: &String| x@).push(p@));
        }
        i = i + 1;
    }
    assert(all.subrange(0, i as int) =~= all);
    r
}

/// The name of a repository's metadata directory.
pub open spec fn git_dir_name() -> Seq<char> {
    seq!['.', 'g', 'i', 't']
}

/// The repository root that a walked path stands for: for a directory
/// named `.git`, its parent (`/` for `/.git`, empty for a bare `.git`).
pub open spec fn repository_root(p: Seq<char>, is_dir: bool) -> Option<Seq<char>> {
    if is_dir && p.len() >= 4 && p.subrange(p.len() - 4, p.len() as int) == git_dir_name() && (
    p.len() == 4 || p[p.len() - 5] == '/') {
        if p.len() == 4 {
            Some(Seq::empty())
        } else if p.len() == 5 {
            Some(seq!['/'])
        } else {
            Some(p.subrange(0, p.len() - 5))
        }
    } else {
        None
    }
}

/// The repository root that a walked entry stands for, if it is a
/// repository's metadata directory.
pub fn git_repository_root(path: &str, is_dir: bool) -> (r: Option<String>)
    ensures
        match r {
            Some(s) => repository_root(path@, is_dir) == Some(s@),
            None => repository_root(path@, is_dir) is None,
        },
{
    let n = path.unicode_len();
    if !is_dir || n < 4 {
        return None;
    }
    let tail = path.substring_char(n - 4, n);
    let marker = ".git";
    proof {
        reveal_strlit(".git");
    }
    assert(marker@ =~= git_dir_name());
    if !crate::configuration::str_eq(tail, marker) {
        return None;
    }
    if n == 4 {
        return Some(String::new());
    }
    if path.get_char(n - 5) != '/' {
        return None;
    }
    if n == 5 {
        let root = "/";
        proof {
            reveal_strlit("/");
        }
        assert(root@ =~= seq!['/']);
        return Some(root.to_owned());
    }
    Some(path.substring_char(0, n - 5).to_owned())
}

/// The repository roots among walked entries, each given as its path and
/// whether it is a directory, in the order of the walk.
pub fn repositories_from_entries(entries: &Vec<(String, bool)>) -> (r: Vec<String>)
    ensures
        strings_view(r@) == roots_of(entries_view(entries@)),
{
    let ghost all = entries_view(entries@);
    let mut r: Vec<String> = Vec::new();
    let mut i: usize = 0;
    while i < entries.len()
        invariant
            all == entries_view(entries@),
            i <= entries@.len(),
            strings_view(r@) == roots_of(all.subrange(0, i as int)),
        decreases entries@.len() - i,
    {
        assert(all.subrange(0, i as int + 1).drop_last() =~= all.subrange(0, i as int));
        let ghost before = r@;
        match git_repository_root(entries[i].0.as_str(), entries[i].1) {
            Some(root) => {
                let ghost rv = root@;
                r.push(root);
                assert(strings_view(r@) =~= strings_view(before).push(rv));
            },
            None => {},
        }
        i = i + 1;
    }
    assert(all.subrange(0, i as int) =~= all);
    r
}

/// The characters of walked entries.
pub open spec fn entries_view(s: Seq<(String, bool)>) -> Seq<(Seq<char>, bool)> {
    s.map_values(|x: (String, bool)| (x.0@, x.1))
}

/// The repository roots that walked entries stand for, in order.
pub open spec fn roots_of(s: Seq<(Seq<char>, bool)>) -> Seq<Seq<char>>
    decreases s.len(),
{
    if s.len() == 0 {
        Seq::empty()
    } else {
        match repository_root(s.last().0, s.last().1) {
            Some(root) => roots_of(s.drop_last()).push(root),
            None => roots_of(s.drop_last()),
        }
    }
}

/// The last component of a path: what follows its last `/`.
pub open spec fn last_component(p: Seq<char>) -> Seq<char>
    decreases p.len(),
{
    if p.len() == 0 || p.last() == '/' {
        Seq::empty()
    } else {
        last_component(p.drop_last()).push(p.last())
    }
}

/// The name of the repository at `path`: its last path component.
pub fn repository_name(path: &str) -> (r: String)
    ensures
        r@ == last_component(path@),
{
    let n = path.unicode_len();
    let mut i: usize = n;
    assert(path@.subrange(n as int, n as int) =~= Seq::<char>::empty());
    assert(path@.subrange(0, n as int) =~= path@);
    while i > 0 && path.get_char(i - 1) != '/'
        invariant
            n == path@.len(),
            i <= n,
            last_component(path@) == last_component(path@.subrange(0, i as int)) + path@.subrange(
                i as int,
                n as int,
            ),
        decreases i,
    {
        let ghost pre = path@.subrange(0, i as int);
        assert(pre.drop_last() =~= path@.subrange(0, i - 1));
        assert(path@.subrange(i - 1, n as int) =~= seq![pre.last()] + path@.subrange(i as int, n as int));
        assert(last_component(pre) == last_component(pre.drop_last()).push(pre.last()));
        assert(last_component(pre.drop_last()).push(pre.last()) + path@.subrange(i as int, n as int)
            =~= last_component(pre.drop_last()) + path@.subrange(i - 1, n as int));
        i = i - 1;
    }
    assert(last_component(path@.subrange(0, i as int)) =~= Seq::<char>::empty());
    assert(Seq::<char>::empty() + path@.subrange(i as int, n as int) =~= path@.subrange(i as int, n as int));
    path.substring_char(i, n).to_owned()
}

} // verus!
