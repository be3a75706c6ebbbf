//! How the harness web server is launched: its command line and the `PATH`
//! it runs with.

use vstd::prelude::*;
use crate::paths::{
    join_path, parent_dir, path_joined, path_parent, resolve_program, resolve_repo_dir,
    RepoSearch,
};
use crate::text::{
    all_whitespace, chars_of, joined, join_with, non_blank, non_blank_spec, opt_view, pieces,
    replace_char, replace_char_spec, split_at_char, split_whitespace, u64_text, decimal, views,
    words, law_words_shape,
};
use crate::web_url::{listen_port, WebUrl};

verus! {

// ---------------------------------------------------------------------------
// Ordering and de-duplication of directory lists
// ---------------------------------------------------------------------------

/// Lexicographic order on texts by code point, the order of `str`'s `Ord`
/// (UTF-8 byte order is code point order).
pub open spec fn text_less(a: Seq<char>, b: Seq<char>) -> bool
    decreases a.len(),
{
    if a.len() == 0 {
        b.len() > 0
    } else if b.len() == 0 {
        false
    } else if a[0] != b[0] {
        a[0] < b[0]
    } else {
        text_less(a.drop_first(), b.drop_first())
    }
}

fn text_less_exec(a: &Vec<char>, b: &Vec<char>) -> (r: bool)
    ensures
        r == text_less(a@, b@),
{
    let mut i: usize = 0;
    assert(a@.skip(0) =~= a@);
    assert(b@.skip(0) =~= b@);
    while i < a.len() && i < b.len()
        invariant
            i <= a.len(),
            i <= b.len(),
            text_less(a@, b@) == text_less(a@.skip(i as int), b@.skip(i as int)),
        decreases a.len() - i,
    {
        assert(a@.skip(i as int)[0] == a@[i as int]);
        assert(b@.skip(i as int)[0] == b@[i as int]);
        if a[i] != b[i] {
            return a[i] < b[i];
        }
        assert(a@.skip(i as int).drop_first() =~= a@.skip(i + 1));
        assert(b@.skip(i as int).drop_first() =~= b@.skip(i + 1));
        i = i + 1;
    }
    i == a.len() && i < b.len()
}

/// `s` with `x` inserted before its first element that `x` sorts before.
pub open spec fn insert_sorted(s: Seq<Seq<char>>, x: Seq<char>) -> Seq<Seq<char>>
    decreases s.len(),
{
    if s.len() == 0 {
        seq![x]
    } else if text_less(x, s[0]) {
        seq![x] + s
    } else {
        seq![s[0]] + insert_sorted(s.drop_first(), x)
    }
}

/// `s` sorted by [`text_less`], as `sort` on a vector of strings leaves it.
pub open spec fn sorted_paths(s: Seq<Seq<char>>) -> Seq<Seq<char>>
    decreases s.len(),
{
    if s.len() == 0 {
        Seq::<Seq<char>>::empty()
    } else {
        insert_sorted(sorted_paths(s.drop_last()), s.last())
    }
}

proof fn lemma_insert_sorted_at(s: Seq<Seq<char>>, x: Seq<char>, p: int)
    requires
        0 <= p <= s.len(),
        forall|j: int| 0 <= j < p ==> !text_less(x, #[trigger] s[j]),
        p == s.len() || text_less(x, s[p]),
    ensures
        insert_sorted(s, x) == s.insert(p, x),
    decreases p,
{
    if p == 0 {
        if s.len() == 0 {
            assert(s.insert(0, x) =~= seq![x]);
        } else {
            assert(s.insert(0, x) =~= seq![x] + s);
        }
    } else {
        let t = s.drop_first();
        assert forall|j: int| 0 <= j < p - 1 implies !text_less(x, #[trigger] t[j]) by {
            assert(t[j] == s[j + 1]);
        }
        if p < s.len() {
            assert(t[p - 1] == s[p]);
        }
        lemma_insert_sorted_at(t, x, p - 1);
        assert(!text_less(x, s[0]));
        assert(seq![s[0]] + t.insert(p - 1, x) =~= s.insert(p, x));
    }
}

/// Where `x` goes in the sorted list `sorted`: before the first element it
/// sorts before.
fn insertion_point(sorted: &Vec<String>, x: &Vec<char>) -> (p: usize)
    ensures
        p <= sorted.len(),
        forall|j: int| 0 <= j < p ==> !text_less(x@, #[trigger] views(sorted@)[j]),
        p == sorted.len() || text_less(x@, views(sorted@)[p as int]),
{
    let mut p: usize = 0;
    while p < sorted.len()
        invariant
            p <= sorted.len(),
            forall|j: int| 0 <= j < p ==> !text_less(x@, #[trigger] views(sorted@)[j]),
        decreases sorted.len() - p,
    {
        let other = chars_of(sorted[p].as_str());
        assert(views(sorted@)[p as int] == sorted@[p as int]@);
        if text_less_exec(x, &other) {
            return p;
        }
        p = p + 1;
    }
    p
}

/// Sorts a list of paths the way `Vec<String>::sort` does.
pub fn sort_paths(v: &Vec<String>) -> (r: Vec<String>)
    ensures
        views(r@) == sorted_paths(views(v@)),
{
    let mut out: Vec<String> = Vec::new();
    let ghost all = views(v@);
    assert(all.take(0) =~= Seq::<Seq<char>>::empty());
    for i in 0..v.len()
        invariant
            all == views(v@),
            views(out@) == sorted_paths(all.take(i as int)),
    {
        let x = v[i].clone();
        let xc = chars_of(x.as_str());
        let p = insertion_point(&out, &xc);
        let ghost before = views(out@);
        proof {
            lemma_insert_sorted_at(before, x@, p as int);
        }
        out.insert(p, x);
        assert(views(out@) =~= before.insert(p as int, x@));
        assert(all.take(i + 1).drop_last() =~= all.take(i as int));
        assert(all.take(i + 1).last() == x@);
    }
    assert(all.take(v.len() as int) =~= all);
    out
}

/// `s` without empty entries and without repeats, each entry kept where it
/// first occurs.
pub open spec fn dedup_nonempty(s: Seq<Seq<char>>) -> Seq<Seq<char>>
    decreases s.len(),
{
    if s.len() == 0 {
        Seq::<Seq<char>>::empty()
    } else {
        let prev = dedup_nonempty(s.drop_last());
        let x = s.last();
        if x.len() == 0 || prev.contains(x) {
            prev
        } else {
            prev.push(x)
        }
    }
}

fn holds_text(list: &Vec<String>, x: &String) -> (b: bool)
    ensures
        b == views(list@).contains(x@),
{
    for i in 0..list.len()
        invariant
            forall|j: int| 0 <= j < i ==> views(list@)[j] != x@,
    {
        assert(views(list@)[i as int] == list@[i as int]@);
        if list[i] == *x {
            return true;
        }
    }
    false
}

/// Drops empty entries and repeats from a directory list, keeping the first
/// occurrence of each entry in place.
pub fn dedup_dirs(v: &Vec<String>) -> (r: Vec<String>)
    ensures
        views(r@) == dedup_nonempty(views(v@)),
{
    let mut out: Vec<String> = Vec::new();
    let ghost all = views(v@);
    assert(all.take(0) =~= Seq::<Seq<char>>::empty());
    for i in 0..v.len()
        invariant
            all == views(v@),
            views(out@) == dedup_nonempty(all.take(i as int)),
    {
        assert(all.take(i + 1).drop_last() =~= all.take(i as int));
        assert(all.take(i + 1).last() == v@[i as int]@);
        let ghost before = views(out@);
        if !v[i].as_str().is_empty() && !holds_text(&out, &v[i]) {
            out.push(v[i].clone());
            assert(views(out@) =~= before.push(v@[i as int]@));
        }
    }
    assert(all.take(v.len() as int) =~= all);
    out
}

// ---------------------------------------------------------------------------
// The PATH of the launched server
// ---------------------------------------------------------------------------

/// Directories put on the launched server's `PATH` so that a Finder-launched
/// app still finds `node`/`pnpm`.
pub open spec fn path_extra_dirs() -> Seq<Seq<char>> {
    seq![
        "~/.local/share/pnpm"@,
        "~/.local/share/fnm"@,
        "~/.volta/bin"@,
        "~/Library/pnpm"@,
        "/opt/homebrew/bin"@,
    ]
}

/// The version-manager directories whose per-version `bin` directories join
/// the `PATH`: `~/.nvm/versions/node` and `~/.local/share/fnm/node-versions`.
pub open spec fn node_version_roots_spec(home: Seq<char>) -> Seq<Seq<char>> {
    seq![home + "/.nvm/versions/node"@, home + "/.local/share/fnm/node-versions"@]
}

/// The version-manager directories whose subdirectories the caller lists
/// for [`augmented_path`].
pub fn node_version_roots(home: &str) -> (r: Vec<String>)
    ensures
        views(r@) == node_version_roots_spec(home@),
{
    let mut nvm = String::from_str(home);
    nvm.append("/.nvm/versions/node");
    let mut fnm = String::from_str(home);
    fnm.append("/.local/share/fnm/node-versions");
    let r = vec![nvm, fnm];
    assert(views(r@) =~= node_version_roots_spec(home@));
    r
}

/// The entries of the `i`-th listed directory (empty when none was given).
pub open spec fn listed(entries: Seq<Seq<Seq<char>>>, i: int) -> Seq<Seq<char>> {
    if 0 <= i < entries.len() {
        entries[i]
    } else {
        Seq::<Seq<char>>::empty()
    }
}

/// The `bin` directories of the version directories `dirs`, sorted.
pub open spec fn version_bins(dirs: Seq<Seq<char>>) -> Seq<Seq<char>> {
    sorted_paths(dirs.map_values(|d: Seq<char>| path_joined(d, "bin"@)))
}

/// The directories offered for the launched server's `PATH`, in order of
/// preference: the launched program's own directory, [`path_extra_dirs`]
/// with `~` replaced by the home directory, the sorted `bin` directories of
/// the installed node versions (nvm, then fnm), then the app's own `PATH`.
pub open spec fn path_candidates(
    program: Seq<char>,
    home: Seq<char>,
    version_dirs: Seq<Seq<Seq<char>>>,
    path_env: Option<Seq<char>>,
) -> Seq<Seq<char>> {
    (match path_parent(program) {
        Some(d) => seq![d],
        None => Seq::<Seq<char>>::empty(),
    }) + path_extra_dirs().map_values(|d: Seq<char>| replace_char_spec(d, '~', home))
        + version_bins(listed(version_dirs, 0)) + version_bins(listed(version_dirs, 1)) + (
    match non_blank_spec(path_env) {
        Some(p) => pieces(p, ':'),
        None => Seq::<Seq<char>>::empty(),
    })
}

/// The directories of the launched server's `PATH`: the candidates without
/// empty entries and repeats, in order.
pub open spec fn augmented_dirs(
    program: Seq<char>,
    home: Seq<char>,
    version_dirs: Seq<Seq<Seq<char>>>,
    path_env: Option<Seq<char>>,
) -> Seq<Seq<char>> {
    dedup_nonempty(path_candidates(program, home, version_dirs, path_env))
}

/// The views of the listed version directories.
pub open spec fn listing_views(entries: Seq<Vec<String>>) -> Seq<Seq<Seq<char>>> {
    entries.map_values(|v: Vec<String>| views(v@))
}

fn append_all(out: &mut Vec<String>, more: Vec<String>)
    ensures
        views(final(out)@) == views(old(out)@) + views(more@),
{
    let ghost start = views(out@);
    for i in 0..more.len()
        invariant
            views(out@) == start + views(more@).take(i as int),
    {
        let ghost before = views(out@);
        out.push(more[i].clone());
        assert(views(out@) =~= before.push(more@[i as int]@));
        assert(views(more@).take(i + 1) =~= views(more@).take(i as int).push(more@[i as int]@));
    }
    assert(views(more@).take(more.len() as int) =~= views(more@));
}

fn bins_of(dirs: &Vec<String>) -> (r: Vec<String>)
    ensures
        views(r@) == version_bins(views(dirs@)),
{
    let mut bins: Vec<String> = Vec::new();
    let ghost want = views(dirs@).map_values(|d: Seq<char>| path_joined(d, "bin"@));
    for i in 0..dirs.len()
        invariant
            want == views(dirs@).map_values(|d: Seq<char>| path_joined(d, "bin"@)),
            views(bins@) == want.take(i as int),
    {
        let ghost before = views(bins@);
        let b = join_path(dirs[i].as_str(), "bin");
        assert(views(dirs@)[i as int] == dirs@[i as int]@);
        assert(want[i as int] == path_joined(dirs@[i as int]@, "bin"@));
        bins.push(b);
        assert(views(bins@) =~= before.push(b@));
        assert(want.take(i + 1) =~= want.take(i as int).push(want[i as int]));
    }
    assert(want.take(dirs.len() as int) =~= want);
    sort_paths(&bins)
}

fn version_listing(version_dirs: &Vec<Vec<String>>, i: usize) -> (r: Vec<String>)
    ensures
        views(r@) == listed(listing_views(version_dirs@), i as int),
{
    if i < version_dirs.len() {
        let mut copy: Vec<String> = Vec::new();
        let src = &version_dirs[i];
        append_all(&mut copy, src.clone());
        assert(views(copy@) =~= views(src@));
        copy
    } else {
        let empty: Vec<String> = Vec::new();
        assert(views(empty@) =~= Seq::<Seq<char>>::empty());
        empty
    }
}

/// The `PATH` for the launched server: the directories of
/// [`augmented_dirs`] joined with `:`. `version_dirs[0]` and
/// `version_dirs[1]` list the version directories found under the two
/// [`node_version_roots`].
pub fn augmented_path(
    resolved_program: &str,
    home: &str,
    version_dirs: &Vec<Vec<String>>,
    path_env: Option<String>,
) -> (p: String)
    ensures
        p@ == joined(
            augmented_dirs(resolved_program@, home@, listing_views(version_dirs@), opt_view(path_env)),
            ":"@,
        ),
{
    let ghost ev = listing_views(version_dirs@);
    let mut all: Vec<String> = Vec::new();
    match parent_dir(resolved_program) {
        Some(d) => {
            all.push(d);
        },
        None => {},
    }
    let ghost a = views(all@);
    let extra = vec![
        "~/.local/share/pnpm",
        "~/.local/share/fnm",
        "~/.volta/bin",
        "~/Library/pnpm",
        "/opt/homebrew/bin",
    ];
    let ghost want = path_extra_dirs().map_values(|d: Seq<char>| replace_char_spec(d, '~', home@));
    for i in 0..extra.len()
        invariant
            extra@.len() == 5,
            forall|j: int| 0 <= j < 5 ==> #[trigger] extra@[j]@ == path_extra_dirs()[j],
            want == path_extra_dirs().map_values(|d: Seq<char>| replace_char_spec(d, '~', home@)),
            views(all@) == a + want.take(i as int),
    {
        let ghost before = views(all@);
        all.push(replace_char(extra[i], '~', home));
        assert(views(all@) =~= before.push(want[i as int]));
        assert(want.take(i + 1) =~= want.take(i as int).push(want[i as int]));
    }
    assert(want.take(5) =~= want);
    let nvm = bins_of(&version_listing(version_dirs, 0));
    append_all(&mut all, nvm);
    let fnm = bins_of(&version_listing(version_dirs, 1));
    append_all(&mut all, fnm);
    let rest = match non_blank(path_env) {
        Some(p) => split_at_char(p.as_str(), ':'),
        None => {
            let none: Vec<String> = Vec::new();
            assert(views(none@) =~= Seq::<Seq<char>>::empty());
            none
        },
    };
    append_all(&mut all, rest);
    assert(views(all@) =~= path_candidates(resolved_program@, home@, ev, opt_view(path_env)));
    let dirs = dedup_dirs(&all);
    join_with(&dirs, ":")
}

} // verus!

verus! {

// ---------------------------------------------------------------------------
// Laws of the PATH directory list
// ---------------------------------------------------------------------------

/// The de-duplicated directory list holds no empty entry and no entry twice,
/// and holds exactly the non-empty entries of the candidates.
pub proof fn law_dedup_shape(s: Seq<Seq<char>>)
    ensures
        forall|i: int| 0 <= i < dedup_nonempty(s).len() ==> (#[trigger] dedup_nonempty(s)[i]).len()
            > 0,
        forall|i: int, j: int|
            0 <= i < j < dedup_nonempty(s).len() ==> #[trigger] dedup_nonempty(s)[i]
                != #[trigger] dedup_nonempty(s)[j],
        forall|x: Seq<char>| #[trigger]
            dedup_nonempty(s).contains(x) <==> (s.contains(x) && x.len() > 0),
    decreases s.len(),
{
    if s.len() > 0 {
        let t = s.drop_last();
        law_dedup_shape(t);
        let prev = dedup_nonempty(t);
        let x = s.last();
        assert forall|y: Seq<char>| #[trigger] s.contains(y) <==> (t.contains(y) || y == x) by {
            if s.contains(y) {
                let k = choose|k: int| 0 <= k < s.len() && s[k] == y;
                if k < s.len() - 1 {
                    assert(t[k] == y);
                }
            }
            if t.contains(y) {
                let k = choose|k: int| 0 <= k < t.len() && t[k] == y;
                assert(s[k] == y);
            }
            if y == x {
                assert(s[s.len() - 1] == y);
            }
        }
        if !(x.len() == 0 || prev.contains(x)) {
            let d = prev.push(x);
            assert forall|y: Seq<char>| #[trigger] d.contains(y) <==> (prev.contains(y) || y == x) by {
                if d.contains(y) {
                    let k = choose|k: int| 0 <= k < d.len() && d[k] == y;
                    if k < prev.len() {
                        assert(prev[k] == y);
                    }
                }
                if prev.contains(y) {
                    let k = choose|k: int| 0 <= k < prev.len() && prev[k] == y;
                    assert(d[k] == y);
                }
                if y == x {
                    assert(d[prev.len() as int] == y);
                }
            }
            assert forall|i: int, j: int| 0 <= i < j < d.len() implies #[trigger] d[i]
                != #[trigger] d[j] by {
                if j == prev.len() {
                    assert(d[i] == prev[i]);
                    if d[i] == d[j] {
                        assert(prev.contains(x));
                    }
                } else {
                    assert(d[i] == prev[i]);
                    assert(d[j] == prev[j]);
                }
            }
            assert forall|i: int| 0 <= i < d.len() implies (#[trigger] d[i]).len() > 0 by {
                if i < prev.len() {
                    assert(d[i] == prev[i]);
                }
            }
        }
    }
}

/// The first candidate, when it is not empty, stays first.
pub proof fn law_dedup_keeps_first(s: Seq<Seq<char>>)
    requires
        s.len() > 0,
        s[0].len() > 0,
    ensures
        dedup_nonempty(s).len() > 0,
        dedup_nonempty(s)[0] == s[0],
    decreases s.len(),
{
    if s.len() == 1 {
        assert(s.drop_last() =~= Seq::<Seq<char>>::empty());
        assert(!Seq::<Seq<char>>::empty().contains(s[0]));
    } else {
        let t = s.drop_last();
        assert(t[0] == s[0]);
        law_dedup_keeps_first(t);
    }
}

/// The launched program's own directory leads the server's `PATH`, and the
/// `PATH` holds every offered directory once, empty entries left out.
pub proof fn law_program_dir_leads_path(
    program: Seq<char>,
    home: Seq<char>,
    version_dirs: Seq<Seq<Seq<char>>>,
    path_env: Option<Seq<char>>,
)
    ensures
        ({
            let dirs = augmented_dirs(program, home, version_dirs, path_env);
            &&& path_parent(program) matches Some(d) ==> (d.len() > 0 ==> dirs.len() > 0 && dirs[0]
                == d)
            &&& forall|i: int, j: int| 0 <= i < j < dirs.len() ==> #[trigger] dirs[i]
                != #[trigger] dirs[j]
            &&& forall|x: Seq<char>| #[trigger]
                dirs.contains(x) <==> (path_candidates(program, home, version_dirs, path_env).contains(x)
                    && x.len() > 0)
        }),
{
    let c = path_candidates(program, home, version_dirs, path_env);
    law_dedup_shape(c);
    if let Some(d) = path_parent(program) {
        if d.len() > 0 {
            assert(c[0] == d);
            law_dedup_keeps_first(c);
        }
    }
}

/// The directories offered for the launched server's `PATH` ahead of the
/// app's own `PATH`: the program's directory, the extra tool directories and
/// the version `bin` directories.
pub open spec fn path_front(
    program: Seq<char>,
    home: Seq<char>,
    version_dirs: Seq<Seq<Seq<char>>>,
) -> Seq<Seq<char>> {
    (match path_parent(program) {
        Some(d) => seq![d],
        None => Seq::<Seq<char>>::empty(),
    }) + path_extra_dirs().map_values(|d: Seq<char>| replace_char_spec(d, '~', home))
        + version_bins(listed(version_dirs, 0)) + version_bins(listed(version_dirs, 1))
}

/// De-duplicating a prefix of a list gives a prefix of the de-duplicated list.
proof fn lemma_dedup_prefix(s: Seq<Seq<char>>, m: int)
    requires
        0 <= m <= s.len(),
    ensures
        dedup_nonempty(s.take(m)).len() <= dedup_nonempty(s).len(),
        dedup_nonempty(s).take(dedup_nonempty(s.take(m)).len() as int) =~= dedup_nonempty(
            s.take(m),
        ),
    decreases s.len(),
{
    if m == s.len() {
        assert(s.take(m) =~= s);
    } else {
        let t = s.drop_last();
        assert(s.take(m) =~= t.take(m));
        lemma_dedup_prefix(t, m);
        let dt = dedup_nonempty(t);
        let ds = dedup_nonempty(s);
        assert(ds.take(dt.len() as int) =~= dt);
        let l1 = dedup_nonempty(t.take(m)).len();
        assert(ds.take(l1 as int) =~= dt.take(l1 as int));
    }
}

/// Every non-empty entry of the app's own `PATH` (when it is not blank) is a
/// directory of the launched server's `PATH`, and these entries keep their
/// relative order: an entry comes before a later one that neither the
/// directories offered ahead of the app's `PATH` nor an earlier entry hold.
pub proof fn law_app_path_kept_in_order(
    program: Seq<char>,
    home: Seq<char>,
    version_dirs: Seq<Seq<Seq<char>>>,
    path_env: Seq<char>,
)
    requires
        !all_whitespace(path_env),
    ensures
        ({
            let dirs = augmented_dirs(program, home, version_dirs, Some(path_env));
            let ps = pieces(path_env, ':');
            &&& forall|k: int| 0 <= k < ps.len() && (#[trigger] ps[k]).len() > 0 ==> dirs.contains(
                ps[k],
            )
            &&& forall|i: int, j: int|
                #![trigger ps[i], ps[j]]
                0 <= i < j < ps.len() && ps[i].len() > 0 && ps[j].len() > 0 && !ps.take(j).contains(
                    ps[j],
                ) && !path_front(program, home, version_dirs).contains(ps[j]) ==> exists|
                    a: int,
                    b: int,
                | 0 <= a < b < dirs.len() && dirs[a] == ps[i] && dirs[b] == ps[j]
        }),
{
    let front = path_front(program, home, version_dirs);
    let ps = pieces(path_env, ':');
    let c = path_candidates(program, home, version_dirs, Some(path_env));
    let dirs = augmented_dirs(program, home, version_dirs, Some(path_env));
    assert(non_blank_spec(Some(path_env)) == Some(path_env));
    assert(c =~= front + ps);
    law_dedup_shape(c);
    assert forall|k: int| 0 <= k < ps.len() && (#[trigger] ps[k]).len() > 0 implies dirs.contains(
        ps[k],
    ) by {
        assert(c[front.len() + k] == ps[k]);
        assert(c.contains(ps[k]));
    }
    assert forall|i: int, j: int|
        #![trigger ps[i], ps[j]]
        0 <= i < j < ps.len() && ps[i].len() > 0 && ps[j].len() > 0 && !ps.take(j).contains(ps[j])
            && !front.contains(ps[j]) implies exists|a: int, b: int|
        0 <= a < b < dirs.len() && dirs[a] == ps[i] && dirs[b] == ps[j] by {
        let x = ps[i];
        let y = ps[j];
        let m = front.len() + i + 1;
        let cm = c.take(m);
        assert(cm[front.len() + i] == x);
        assert(cm.contains(x));
        assert(!cm.contains(y)) by {
            if cm.contains(y) {
                let k = choose|k: int| 0 <= k < cm.len() && cm[k] == y;
                if k < front.len() {
                    assert(front[k] == y);
                    assert(front.contains(y));
                } else {
                    assert(ps[k - front.len()] == y);
                    assert(ps.take(j)[k - front.len()] == y);
                    assert(ps.take(j).contains(y));
                }
            }
        }
        assert(c[front.len() + j] == y);
        assert(c.contains(y));
        law_dedup_shape(cm);
        lemma_dedup_prefix(c, m);
        let d1 = dedup_nonempty(cm);
        assert(d1.contains(x));
        assert(dirs.contains(y));
        let a = choose|a: int| 0 <= a < d1.len() && d1[a] == x;
        let b = choose|b: int| 0 <= b < dirs.len() && dirs[b] == y;
        assert(dirs.take(d1.len() as int)[a] == x);
        assert(dirs[a] == x);
        if b < d1.len() {
            assert(dirs.take(d1.len() as int)[b] == y);
            assert(d1[b] == y);
            assert(d1.contains(y));
        }
        assert(0 <= a < b < dirs.len() && dirs[a] == ps[i] && dirs[b] == ps[j]);
    }
}

// ---------------------------------------------------------------------------
// The command line and the launch plan
// ---------------------------------------------------------------------------

/// The default launch command, `pnpm dsh web --port <port>`, with the port
/// the client probes so that the server listens where the client looks.
pub open spec fn default_command(port: u16) -> Seq<Seq<char>> {
    seq!["pnpm"@, "dsh"@, "web"@, "--port"@, decimal(port as nat)]
}

/// The launch command line: the configured command (`DSH_WEB_COMMAND`) split
/// at whitespace, used verbatim, when it is set and not blank; the default
/// command for the URL's port otherwise.
pub open spec fn launch_argv_spec(custom: Option<Seq<char>>, port: u16) -> Seq<Seq<char>> {
    match non_blank_spec(custom) {
        Some(c) => words(c),
        None => default_command(port),
    }
}

/// The command line that launches the harness web server for `url`.
pub fn launch_argv(custom_command: Option<String>, url: &WebUrl) -> (argv: Vec<String>)
    ensures
        views(argv@) == launch_argv_spec(opt_view(custom_command), listen_port(url@)),
{
    match non_blank(custom_command) {
        Some(c) => split_whitespace(c.as_str()),
        None => {
            let port = match url.port_or_known_default() {
                Some(p) => p,
                None => 80,
            };
            let argv = vec![
                String::from_str("pnpm"),
                String::from_str("dsh"),
                String::from_str("web"),
                String::from_str("--port"),
                u64_text(port as u64),
            ];
            assert(views(argv@) =~= default_command(port));
            argv
        },
    }
}

/// The launch command line is never empty, and none of its words is empty:
/// a configured command that is not blank has at least one word.
pub proof fn law_launch_argv_not_empty(custom: Option<Seq<char>>, port: u16)
    ensures
        launch_argv_spec(custom, port).len() > 0,
        forall|i: int|
            0 <= i < launch_argv_spec(custom, port).len() ==> (#[trigger] launch_argv_spec(
                custom,
                port,
            )[i]).len() > 0,
{
    match non_blank_spec(custom) {
        Some(c) => {
            law_words_shape(c);
        },
        None => {
            let d = default_command(port);
            reveal_strlit("pnpm");
            reveal_strlit("dsh");
            reveal_strlit("web");
            reveal_strlit("--port");
            assert(decimal(port as nat).len() > 0);
            assert forall|i: int| 0 <= i < d.len() implies (#[trigger] d[i]).len() > 0 by {
                if i == 4 {
                    assert(d[4] == decimal(port as nat));
                }
            }
        },
    }
}

/// The error when the configured command has no word.
pub open spec fn empty_command_message() -> Seq<char> {
    "DSH_WEB_COMMAND must not be empty"@
}

/// The error when the launch program cannot be found.
pub open spec fn program_not_found_message(name: Seq<char>) -> Seq<char> {
    "could not find `"@ + name
        + "`.\nLaunch the app from a terminal (where PATH includes node and pnpm), or set DSH_WEB_COMMAND to the full command and DSH_REPO_DIR to the harness checkout."@
}

/// The error when no checkout is found to launch from.
pub open spec fn checkout_not_found_message() -> Seq<char> {
    "could not locate the DeepSeek Harness checkout.\nLaunch the app from the checkout directory, or set DSH_REPO_DIR to its path."@
}

/// The error when the launch itself fails.
pub open spec fn launch_failed_message(argv: Seq<Seq<char>>, error: Seq<char>) -> Seq<char> {
    "failed to launch `"@ + joined(argv, " "@) + "`: "@ + error
}

fn message_program_not_found(name: &str) -> (m: String)
    ensures
        m@ == program_not_found_message(name@),
{
    let mut m = String::from_str("could not find `");
    m.append(name);
    m.append(
        "`.\nLaunch the app from a terminal (where PATH includes node and pnpm), or set DSH_WEB_COMMAND to the full command and DSH_REPO_DIR to the harness checkout.",
    );
    m
}

/// The error reported when spawning the launch command fails with `error`.
pub fn launch_failure_message(argv: &Vec<String>, error: &str) -> (m: String)
    ensures
        m@ == launch_failed_message(views(argv@), error@),
{
    let mut m = String::from_str("failed to launch `");
    let line = join_with(argv, " ");
    m.append(line.as_str());
    m.append("`: ");
    m.append(error);
    m
}

/// What the harness server is launched with: the program, its arguments,
/// the `PATH` it runs with and its working directory (the checkout).
pub struct LaunchPlan {
    pub program: String,
    pub args: Vec<String>,
    pub search_path: String,
    pub working_dir: String,
}

/// What the launch reads besides the target URL.
pub struct LaunchSettings {
    /// The configured launch command (`DSH_WEB_COMMAND`), if any.
    pub custom_command: Option<String>,
    /// The app's own `PATH`, if set.
    pub path_env: Option<String>,
    /// The home directory (`HOME`, empty when unset).
    pub home: String,
    /// The version directories under each of [`node_version_roots`].
    pub version_dirs: Vec<Vec<String>>,
    /// Where to look for the checkout.
    pub repo_search: RepoSearch,
}

/// The launch decision once the program and the checkout have been looked
/// for: the first error among an empty command, a missing program and a
/// missing checkout, or the plan.
pub open spec fn launch_outcome(
    argv: Seq<Seq<char>>,
    program: Option<Seq<char>>,
    repo: Option<Seq<char>>,
    home: Seq<char>,
    version_dirs: Seq<Seq<Seq<char>>>,
    path_env: Option<Seq<char>>,
) -> Result<(Seq<char>, Seq<Seq<char>>, Seq<char>, Seq<char>), Seq<char>> {
    if argv.len() == 0 {
        Err(empty_command_message())
    } else {
        match program {
            None => Err(program_not_found_message(argv[0])),
            Some(p) => match repo {
                None => Err(checkout_not_found_message()),
                Some(r) => Ok(
                    (
                        p,
                        argv.skip(1),
                        joined(augmented_dirs(p, home, version_dirs, path_env), ":"@),
                        r,
                    ),
                ),
            },
        }
    }
}

/// The view of a launch result.
pub open spec fn plan_view(r: Result<LaunchPlan, String>) -> Result<
    (Seq<char>, Seq<Seq<char>>, Seq<char>, Seq<char>),
    Seq<char>,
> {
    match r {
        Ok(p) => Ok((p.program@, views(p.args@), p.search_path@, p.working_dir@)),
        Err(m) => Err(m@),
    }
}

/// Decides the launch from the command line and what the searches found.
pub fn launch_plan_from(
    argv: &Vec<String>,
    program: Option<String>,
    repo: Option<String>,
    home: &str,
    version_dirs: &Vec<Vec<String>>,
    path_env: Option<String>,
) -> (r: Result<LaunchPlan, String>)
    ensures
        plan_view(r) == launch_outcome(
            views(argv@),
            opt_view(program),
            opt_view(repo),
            home@,
            listing_views(version_dirs@),
            opt_view(path_env),
        ),
{
    if argv.len() == 0 {
        return Err(String::from_str("DSH_WEB_COMMAND must not be empty"));
    }
    assert(views(argv@)[0] == argv@[0]@);
    let program = match program {
        Some(p) => p,
        None => {
            return Err(message_program_not_found(argv[0].as_str()));
        },
    };
    let repo = match repo {
        Some(r) => r,
        None => {
            return Err(
                String::from_str(
                    "could not locate the DeepSeek Harness checkout.\nLaunch the app from the checkout directory, or set DSH_REPO_DIR to its path.",
                ),
            );
        },
    };
    let mut args: Vec<String> = Vec::new();
    for i in 1..argv.len()
        invariant
            argv.len() >= 1,
            views(args@) == views(argv@).subrange(1, i as int),
    {
        let ghost before = views(args@);
        let w = argv[i].clone();
        assert(views(argv@)[i as int] == argv@[i as int]@);
        args.push(w);
        assert(views(args@) =~= before.push(argv@[i as int]@));
        assert(views(args@) =~= views(argv@).subrange(1, i + 1));
    }
    assert(views(argv@).subrange(1, argv.len() as int) =~= views(argv@).skip(1));
    let search_path = augmented_path(program.as_str(), home, version_dirs, path_env);
    Ok(LaunchPlan { program, args, search_path, working_dir: repo })
}

/// Plans the launch of the harness web server on the port of `url`: the
/// command comes from the configured command or defaults to
/// `pnpm dsh web --port <port>`; the program is looked up on `PATH`; the
/// working directory is the checkout. The program is looked for first and
/// the checkout only once the program is found, so the result is
/// [`launch_outcome`] of what the two searches settled on: the missing
/// program is reported before a missing checkout.
pub fn plan_launch(url: &WebUrl, settings: &LaunchSettings) -> (r: Result<LaunchPlan, String>)
    ensures
        ({
            let argv = launch_argv_spec(opt_view(settings.custom_command), listen_port(url@));
            &&& exists|prog: Option<Seq<char>>, repo: Option<Seq<char>>|
                {
                    &&& crate::paths::program_found(
                        argv[0],
                        opt_view(settings.path_env),
                        settings.home@,
                        prog,
                    )
                    &&& (prog is Some ==> crate::paths::first_root(
                        crate::paths::search_candidates(settings.repo_search),
                        repo,
                    ))
                    &&& (prog is None ==> repo is None)
                    &&& plan_view(r) == #[trigger] launch_outcome(
                        argv,
                        prog,
                        repo,
                        settings.home@,
                        listing_views(settings.version_dirs@),
                        opt_view(settings.path_env),
                    )
                }
            &&& r matches Err(m) ==> {
                ||| m@ == program_not_found_message(argv[0]) && crate::paths::program_found(
                    argv[0],
                    opt_view(settings.path_env),
                    settings.home@,
                    None,
                )
                ||| m@ == checkout_not_found_message() && crate::paths::first_root(
                    crate::paths::search_candidates(settings.repo_search),
                    None,
                ) && exists|p: Seq<char>|
                    #[trigger] crate::paths::program_found(
                        argv[0],
                        opt_view(settings.path_env),
                        settings.home@,
                        Some(p),
                    )
            }
            &&& r matches Ok(p) ==> {
                &&& views(p.args@) == argv.skip(1)
                &&& p.search_path@ == joined(
                    augmented_dirs(
                        p.program@,
                        settings.home@,
                        listing_views(settings.version_dirs@),
                        opt_view(settings.path_env),
                    ),
                    ":"@,
                )
                &&& crate::paths::program_found(
                    argv[0],
                    opt_view(settings.path_env),
                    settings.home@,
                    Some(p.program@),
                )
                &&& crate::paths::first_root(
                    crate::paths::search_candidates(settings.repo_search),
                    Some(p.working_dir@),
                )
            }
        }),
{
    let argv = launch_argv(settings.custom_command.clone(), url);
    proof {
        law_launch_argv_not_empty(opt_view(settings.custom_command), listen_port(url@));
    }
    assert(views(argv@)[0] == argv@[0]@);
    let program = resolve_program(argv[0].as_str(), settings.path_env.clone(), settings.home.as_str());
    let repo = match &program {
        Some(_) => resolve_repo_dir(&settings.repo_search),
        None => None,
    };
    let ghost prog = opt_view(program);
    let ghost found = opt_view(repo);
    let r = launch_plan_from(
        &argv,
        program,
        repo,
        settings.home.as_str(),
        &settings.version_dirs,
        settings.path_env.clone(),
    );
    assert(plan_view(r) == launch_outcome(
        views(argv@),
        prog,
        found,
        settings.home@,
        listing_views(settings.version_dirs@),
        opt_view(settings.path_env),
    ));
    r
}

} // verus!

verus! {

proof fn lemma_text_less_transitive(a: Seq<char>, b: Seq<char>, c: Seq<char>)
    requires
        text_less(a, b),
        text_less(b, c),
    ensures
        text_less(a, c),
    decreases a.len(),
{
    if a.len() > 0 && b.len() > 0 && c.len() > 0 && a[0] == b[0] && b[0] == c[0] {
        lemma_text_less_transitive(a.drop_first(), b.drop_first(), c.drop_first());
    }
}

proof fn lemma_text_less_irreflexive(a: Seq<char>)
    ensures
        !text_less(a, a),
    decreases a.len(),
{
    if a.len() > 0 {
        lemma_text_less_irreflexive(a.drop_first());
    }
}

/// Whether no element of `s` sorts before an earlier one.
pub open spec fn is_sorted(s: Seq<Seq<char>>) -> bool {
    forall|i: int, j: int| 0 <= i < j < s.len() ==> !text_less(#[trigger] s[j], #[trigger] s[i])
}

proof fn lemma_insert_sorted_keeps_order(s: Seq<Seq<char>>, x: Seq<char>)
    requires
        is_sorted(s),
    ensures
        is_sorted(insert_sorted(s, x)),
        insert_sorted(s, x).to_multiset() == s.to_multiset().insert(x),
    decreases s.len(),
{
    broadcast use vstd::seq_lib::group_to_multiset_ensures;
    if s.len() == 0 {
        assert(insert_sorted(s, x) =~= seq![x]);
        assert(seq![x] =~= Seq::<Seq<char>>::empty().push(x));
    } else if text_less(x, s[0]) {
        let r = seq![x] + s;
        assert forall|i: int, j: int| 0 <= i < j < r.len() implies !text_less(
            #[trigger] r[j],
            #[trigger] r[i],
        ) by {
            if i == 0 {
                assert(r[j] == s[j - 1]);
                if text_less(s[j - 1], x) {
                    if j - 1 == 0 {
                        lemma_text_less_transitive(s[0], x, s[0]);
                        lemma_text_less_irreflexive(s[0]);
                    } else {
                        assert(!text_less(s[j - 1], s[0]));
                        lemma_text_less_transitive(s[j - 1], x, s[0]);
                    }
                }
            } else {
                assert(r[i] == s[i - 1]);
                assert(r[j] == s[j - 1]);
            }
        }
        assert(r =~= s.insert(0, x));
        vstd::seq_lib::lemma_seq_union_to_multiset_commutative(seq![x], s);
        assert(seq![x].to_multiset() =~= vstd::multiset::Multiset::empty().insert(x)) by {
            assert(seq![x] =~= Seq::<Seq<char>>::empty().push(x));
        }
        vstd::seq_lib::lemma_multiset_commutative(seq![x], s);
        assert(r.to_multiset() =~= s.to_multiset().insert(x));
    } else {
        let t = s.drop_first();
        assert(is_sorted(t)) by {
            assert forall|i: int, j: int| 0 <= i < j < t.len() implies !text_less(
                #[trigger] t[j],
                #[trigger] t[i],
            ) by {
                assert(t[i] == s[i + 1]);
                assert(t[j] == s[j + 1]);
            }
        }
        lemma_insert_sorted_keeps_order(t, x);
        let u = insert_sorted(t, x);
        let r = seq![s[0]] + u;
        assert(u.to_multiset().contains(x));
        assert forall|i: int, j: int| 0 <= i < j < r.len() implies !text_less(
            #[trigger] r[j],
            #[trigger] r[i],
        ) by {
            if i == 0 {
                assert(r[j] == u[j - 1]);
                assert(u.to_multiset().count(u[j - 1]) > 0);
                assert(u.contains(u[j - 1]));
                if u[j - 1] != x {
                    assert(t.to_multiset().count(u[j - 1]) > 0);
                    assert(t.contains(u[j - 1]));
                    let k = choose|k: int| 0 <= k < t.len() && t[k] == u[j - 1];
                    assert(s[k + 1] == t[k]);
                }
            } else {
                assert(r[i] == u[i - 1]);
                assert(r[j] == u[j - 1]);
            }
        }
        assert(s =~= seq![s[0]] + t);
        vstd::seq_lib::lemma_multiset_commutative(seq![s[0]], u);
        vstd::seq_lib::lemma_multiset_commutative(seq![s[0]], t);
    }
}

/// The sorted `bin` directories are in order and are exactly the given ones,
/// each as often as given.
pub proof fn law_sorted_paths(s: Seq<Seq<char>>)
    ensures
        is_sorted(sorted_paths(s)),
        sorted_paths(s).to_multiset() == s.to_multiset(),
    decreases s.len(),
{
    broadcast use vstd::seq_lib::group_to_multiset_ensures;
    if s.len() > 0 {
        law_sorted_paths(s.drop_last());
        lemma_insert_sorted_keeps_order(sorted_paths(s.drop_last()), s.last());
        assert(s =~= s.drop_last().push(s.last()));
    }
}

} // verus!

verus! {

/// Without a configured command, the launched server is told to listen on
/// exactly the port the reachability probe connects to.
pub proof fn law_server_listens_where_probed(url: crate::web_url::WebUrlView, host: Seq<char>, port: u16)
    requires
        crate::web_url::probe_target_spec(url) == Some((host, port)),
    ensures
        launch_argv_spec(None, listen_port(url)).len() == 5,
        launch_argv_spec(None, listen_port(url))[3] == "--port"@,
        launch_argv_spec(None, listen_port(url))[4] == decimal(port as nat),
{
}

} // verus!
