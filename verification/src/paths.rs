//! Locating the DeepSeek Harness checkout and the launch program on disk.
//!
//! Paths are held as strings. Joining and taking the parent go through
//! `std::path`; whether a file exists is asked of the file system, so the
//! functions that probe say which candidates they may answer with, and the
//! candidate lists themselves are exact.

use vstd::prelude::*;
use crate::text::{
    all_whitespace, contains_char, non_blank, non_blank_spec, opt_view, pieces, replace_char,
    replace_char_spec, split_at_char, views,
};

verus! {

/// `Path::parent` of the path `p`, as text.
pub uninterp spec fn path_parent(p: Seq<char>) -> Option<Seq<char>>;

/// `Path::join` of `base` and `part`, as text.
pub uninterp spec fn path_joined(base: Seq<char>, part: Seq<char>) -> Seq<char>;

/// Calls `std::path::Path::parent` on `p`. Claimed: the result is the named
/// `path_parent(p)`, a function of `p` alone.
#[verifier::external_body]
pub(crate) fn parent_dir(p: &str) -> (r: Option<String>)
    ensures
        opt_view(r) == path_parent(p@),
{
    std::path::Path::new(p).parent().map(|q| q.to_string_lossy().into_owned())
}

/// Calls `std::path::Path::join` on `base` and `part`. Claimed: the result is
/// the named `path_joined(base, part)`, a function of the two alone.
#[verifier::external_body]
pub(crate) fn join_path(base: &str, part: &str) -> (r: String)
    ensures
        r@ == path_joined(base@, part@),
{
    std::path::Path::new(base).join(part).to_string_lossy().into_owned()
}

/// Calls `std::path::Path::is_file` on `p`. Nothing is claimed of the
/// answer: it depends on the file system at the time of the call.
#[verifier::external_body]
fn path_is_file(p: &str) -> bool {
    std::path::Path::new(p).is_file()
}

/// The file whose presence marks a checkout root.
pub open spec fn repo_marker(dir: Seq<char>) -> Seq<char> {
    path_joined(dir, "pnpm-workspace.yaml"@)
}

/// The path of the marker file of a would-be checkout root `dir`.
pub fn repo_marker_path(dir: &str) -> (p: String)
    ensures
        p@ == repo_marker(dir@),
{
    join_path(dir, "pnpm-workspace.yaml")
}

/// Whether `path` names an existing file. The answer rests on the file
/// system at the time of the call: a later call may answer otherwise.
pub fn names_file(path: &str) -> bool {
    path_is_file(path)
}

/// Whether `answer` is an answer [`names_file`] gave for the path `p`.
pub open spec fn file_answer(p: Seq<char>, answer: bool) -> bool {
    exists|s: &str| s@ == p && #[trigger] call_ensures(names_file, (s,), answer)
}

/// Whether `path` is a DeepSeek Harness checkout root: whether its
/// `pnpm-workspace.yaml` exists as a file. The answer is the file system's
/// answer about [`repo_marker`] of `path`.
pub fn is_repo_root(path: &str) -> (r: bool)
    ensures
        file_answer(repo_marker(path@), r),
{
    let marker = repo_marker_path(path);
    let m = marker.as_str();
    let r = names_file(m);
    assert(call_ensures(names_file, (m,), r));
    r
}

/// Whether `answer` is an answer [`is_repo_root`] gave for the path `p`.
pub open spec fn root_answer(p: Seq<char>, answer: bool) -> bool {
    exists|s: &str| s@ == p && #[trigger] call_ensures(is_repo_root, (s,), answer)
}

/// Whether `r` is what a search of `cands` in order settles on, given the
/// answers `answered` yields: the first candidate answered yes, every
/// earlier one answered no; or nothing, every candidate answered no.
pub open spec fn first_answered(
    cands: Seq<Seq<char>>,
    r: Option<Seq<char>>,
    answered: spec_fn(Seq<char>, bool) -> bool,
) -> bool {
    match r {
        Some(c) => exists|k: int|
            0 <= k < cands.len() && cands[k] == c && answered(c, true) && forall|j: int|
                0 <= j < k ==> answered(#[trigger] cands[j], false),
        None => forall|j: int| 0 <= j < cands.len() ==> answered(#[trigger] cands[j], false),
    }
}

/// [`first_answered`] with the answers of [`is_repo_root`]: `r` is the first
/// of `cands` that is a checkout root, or nothing when none is.
pub open spec fn first_root(cands: Seq<Seq<char>>, r: Option<Seq<char>>) -> bool {
    first_answered(cands, r, |p: Seq<char>, b: bool| root_answer(p, b))
}

/// [`first_answered`] with the answers of [`names_file`]: `r` is the first
/// of `cands` that names a file, or nothing when none does.
pub open spec fn first_file_of(cands: Seq<Seq<char>>, r: Option<Seq<char>>) -> bool {
    first_answered(cands, r, |p: Seq<char>, b: bool| file_answer(p, b))
}

/// The `deepseek-harness` sibling looked for beside a directory.
pub open spec fn sibling_checkout(dir: Seq<char>) -> Seq<char> {
    path_joined(dir, "deepseek-harness"@)
}

/// The directories a walk up from `start` visits: `start` and its ancestors,
/// at most `levels` of them.
pub open spec fn walk_dirs(start: Seq<char>, levels: nat) -> Seq<Seq<char>>
    decreases levels,
{
    if levels == 0 {
        Seq::<Seq<char>>::empty()
    } else {
        seq![start] + match path_parent(start) {
            Some(p) => walk_dirs(p, (levels - 1) as nat),
            None => Seq::<Seq<char>>::empty(),
        }
    }
}

/// Each directory followed by its `deepseek-harness` sibling.
pub open spec fn with_siblings(dirs: Seq<Seq<char>>) -> Seq<Seq<char>>
    decreases dirs.len(),
{
    if dirs.len() == 0 {
        Seq::<Seq<char>>::empty()
    } else {
        seq![dirs[0], sibling_checkout(dirs[0])] + with_siblings(dirs.drop_first())
    }
}

/// The levels a walk up to the checkout climbs at most.
pub open spec fn walk_levels() -> nat {
    8
}

/// The would-be checkout roots a walk up from `start` tries, in order: at
/// each of at most 8 levels, the directory itself, then its
/// `deepseek-harness` sibling.
pub open spec fn walk_candidates(start: Seq<char>) -> Seq<Seq<char>> {
    with_siblings(walk_dirs(start, walk_levels()))
}

/// The would-be checkout roots of a walk up from `start`, in the order the
/// walk tries them.
pub fn repo_candidates(start: &str) -> (c: Vec<String>)
    ensures
        views(c@) == walk_candidates(start@),
{
    let mut out: Vec<String> = Vec::new();
    let mut current = String::from_str(start);
    let mut level: usize = 0;
    while level < 8
        invariant
            level <= 8,
            views(out@) + with_siblings(walk_dirs(current@, (8 - level) as nat))
                == walk_candidates(start@),
        decreases 8 - level,
    {
        let ghost before = views(out@);
        let ghost cur = current@;
        let ghost k = (8 - level) as nat;
        let sibling = join_path(current.as_str(), "deepseek-harness");
        let parent = parent_dir(current.as_str());
        out.push(current);
        out.push(sibling);
        let ghost rest = match path_parent(cur) {
            Some(p) => walk_dirs(p, (k - 1) as nat),
            None => Seq::<Seq<char>>::empty(),
        };
        assert(walk_dirs(cur, k) == seq![cur] + rest);
        assert((seq![cur] + rest).drop_first() =~= rest);
        assert(views(out@) =~= before + seq![cur, sibling_checkout(cur)]);
        match parent {
            Some(p) => {
                current = p;
                level = level + 1;
                assert(views(out@) + with_siblings(rest) =~= before + with_siblings(walk_dirs(cur, k)));
            },
            None => {
                assert(with_siblings(rest) =~= Seq::<Seq<char>>::empty());
                assert(views(out@) =~= before + with_siblings(walk_dirs(cur, k)));
                return out;
            },
        }
    }
    assert(views(out@) =~= views(out@) + with_siblings(walk_dirs(current@, 0)));
    out
}

/// Where a search through candidates tried in order stands.
pub enum SearchStep {
    /// Ask about the candidate at this index next.
    Probe(usize),
    /// The candidate at this index is the answer.
    Found(usize),
    /// No candidate is the answer.
    NotFound,
}

/// Index of the first `true` answer at or after `i`, if any.
pub open spec fn first_hit_from(answers: Seq<bool>, i: int) -> Option<int>
    decreases answers.len() - i,
{
    if i < 0 || i >= answers.len() {
        None
    } else if answers[i] {
        Some(i)
    } else {
        first_hit_from(answers, i + 1)
    }
}

/// Index of the first `true` answer, if any: the candidate a search settles
/// on when the candidates are asked about in order and answer `answers`.
pub open spec fn first_hit(answers: Seq<bool>) -> Option<int> {
    first_hit_from(answers, 0)
}

/// How a search through `n` candidates begins: with the first of them, or
/// with no answer when there is none.
pub fn search_start(n: usize) -> (s: SearchStep)
    ensures
        n == 0 ==> s == SearchStep::NotFound,
        n > 0 ==> s == SearchStep::Probe(0),
{
    if n == 0 {
        SearchStep::NotFound
    } else {
        SearchStep::Probe(0)
    }
}

/// One step of a search through `n` candidates tried in order, after the
/// candidate at index `i` was asked about and answered `hit`: that candidate
/// is the answer when `hit` holds; otherwise the next one is asked about, and
/// when there is none left, there is no answer.
pub fn search_step(n: usize, i: usize, hit: bool) -> (s: SearchStep)
    requires
        i < n,
    ensures
        hit ==> s == SearchStep::Found(i),
        !hit && i + 1 < n ==> s == SearchStep::Probe((i + 1) as usize),
        !hit && i + 1 >= n ==> s == SearchStep::NotFound,
{
    if hit {
        SearchStep::Found(i)
    } else if i + 1 < n {
        SearchStep::Probe(i + 1)
    } else {
        SearchStep::NotFound
    }
}

/// Stepping through candidates from the start settles on the first candidate
/// whose answer is yes, and on no answer exactly when every answer is no.
pub proof fn law_first_hit(answers: Seq<bool>)
    ensures
        match first_hit(answers) {
            Some(k) => 0 <= k < answers.len() && answers[k] && forall|j: int|
                0 <= j < k ==> !#[trigger] answers[j],
            None => forall|j: int| 0 <= j < answers.len() ==> !#[trigger] answers[j],
        },
{
    lemma_first_hit_from(answers, 0);
}

proof fn lemma_first_hit_from(answers: Seq<bool>, i: int)
    requires
        0 <= i,
    ensures
        match first_hit_from(answers, i) {
            Some(k) => i <= k < answers.len() && answers[k] && forall|j: int|
                i <= j < k ==> !#[trigger] answers[j],
            None => forall|j: int| i <= j < answers.len() ==> !#[trigger] answers[j],
        },
    decreases answers.len() - i,
{
    if i < answers.len() && !answers[i] {
        lemma_first_hit_from(answers, i + 1);
    }
}

/// The first of `candidates` that is a checkout root, asking
/// [`is_repo_root`] about each in turn with [`search_step`]; `None` when none
/// is.
fn first_repo_root(candidates: &Vec<String>) -> (r: Option<String>)
    ensures
        first_root(views(candidates@), opt_view(r)),
{
    let n = candidates.len();
    let ghost cands = views(candidates@);
    let mut step = search_start(n);
    loop
        invariant
            n == candidates.len(),
            cands == views(candidates@),
            step matches SearchStep::Probe(i) ==> i < n && forall|j: int|
                0 <= j < i ==> root_answer(#[trigger] cands[j], false),
            step matches SearchStep::Found(i) ==> i < n && root_answer(cands[i as int], true)
                && forall|j: int| 0 <= j < i ==> root_answer(#[trigger] cands[j], false),
            step is NotFound ==> forall|j: int| 0 <= j < n ==> root_answer(#[trigger] cands[j], false),
        decreases
                match step {
                    SearchStep::Probe(i) => n - i + 1,
                    _ => 0,
                },
    {
        match step {
            SearchStep::Probe(i) => {
                let p = candidates[i].as_str();
                let hit = is_repo_root(p);
                assert(cands[i as int] == p@);
                assert(call_ensures(is_repo_root, (p,), hit));
                assert(root_answer(cands[i as int], hit));
                step = search_step(n, i, hit);
                assert forall|j: int| 0 <= j < i + 1 && !hit implies root_answer(
                    #[trigger] cands[j],
                    false,
                ) by {
                    if j == i {
                        assert(root_answer(cands[i as int], hit));
                    }
                }
            },
            SearchStep::Found(i) => {
                let found = candidates[i].clone();
                assert(cands[i as int] == found@);
                assert(first_root(cands, Some(found@)));
                return Some(found);
            },
            SearchStep::NotFound => {
                return None;
            },
        }
    }
}

/// Walks up from `start` (at most 8 levels); at each level checks the
/// directory itself and a `deepseek-harness` sibling, so a client living next
/// to the checkout still finds it. Answers with the first of
/// [`walk_candidates`] that [`is_repo_root`] confirms, every earlier one
/// refused; `None` when it refuses them all.
pub fn walk_up_to_repo(start: &str) -> (r: Option<String>)
    ensures
        first_root(walk_candidates(start@), opt_view(r)),
{
    let candidates = repo_candidates(start);
    first_repo_root(&candidates)
}

/// The directories under the home directory that the checkout scan looks in.
pub open spec fn home_tops() -> Seq<Seq<char>> {
    seq![
        "deepseek-harness"@,
        "Projects"@,
        "projects"@,
        "dev"@,
        "code"@,
        "src"@,
        "workspace"@,
        "work"@,
    ]
}

/// The directories the home scan looks in: `home` joined with each of
/// [`home_tops`], in order.
pub open spec fn home_scan_bases_spec(home: Seq<char>) -> Seq<Seq<char>> {
    home_tops().map_values(|t: Seq<char>| path_joined(home, t))
}

/// The directories the home scan looks in, in order. The caller lists the
/// entries of each (see [`scan_home_for_repo`]).
pub fn home_scan_bases(home: &str) -> (b: Vec<String>)
    ensures
        views(b@) == home_scan_bases_spec(home@),
{
    let tops = vec![
        "deepseek-harness",
        "Projects",
        "projects",
        "dev",
        "code",
        "src",
        "workspace",
        "work",
    ];
    let mut out: Vec<String> = Vec::new();
    for i in 0..tops.len()
        invariant
            tops@.len() == 8,
            forall|j: int| 0 <= j < 8 ==> #[trigger] tops@[j]@ == home_tops()[j],
            views(out@) == home_scan_bases_spec(home@).take(i as int),
    {
        let ghost before = views(out@);
        let joined = join_path(home, tops[i]);
        assert(home_tops().len() == 8);
        assert(home_scan_bases_spec(home@)[i as int] == path_joined(home@, home_tops()[i as int]));
        assert(joined@ == home_scan_bases_spec(home@)[i as int]);
        out.push(joined);
        assert(views(out@) =~= before.push(joined@));
        assert(home_scan_bases_spec(home@).take(i + 1) =~= home_scan_bases_spec(home@).take(i as int).push(joined@));
    }
    assert(home_scan_bases_spec(home@).take(8) =~= home_scan_bases_spec(home@));
    out
}

/// The entries of the `i`-th scanned directory (empty when the caller had
/// none for it).
pub open spec fn entries_of(entries: Seq<Seq<Seq<char>>>, i: int) -> Seq<Seq<char>> {
    if 0 <= i < entries.len() {
        entries[i]
    } else {
        Seq::<Seq<char>>::empty()
    }
}

/// The would-be checkouts the home scan tries from the `i`-th scanned
/// directory on: for each directory, its `deepseek-harness` child, then the
/// `deepseek-harness` child of each of its entries.
pub open spec fn home_candidates_from(home: Seq<char>, entries: Seq<Seq<Seq<char>>>, i: int) -> Seq<
    Seq<char>,
>
    decreases 8 - i,
{
    if i < 0 || i >= 8 {
        Seq::<Seq<char>>::empty()
    } else {
        seq![sibling_checkout(home_scan_bases_spec(home)[i])] + entries_of(entries, i).map_values(
            |e: Seq<char>| sibling_checkout(e),
        ) + home_candidates_from(home, entries, i + 1)
    }
}

/// The views of the entry lists of the scanned directories.
pub open spec fn entry_views(entries: Seq<Vec<String>>) -> Seq<Seq<Seq<char>>> {
    entries.map_values(|v: Vec<String>| views(v@))
}

/// The would-be checkouts of the home scan, in the order it tries them:
/// `~/deepseek-harness` itself, then those of [`home_candidates_from`].
pub open spec fn home_candidates(home: Seq<char>, entries: Seq<Seq<Seq<char>>>) -> Seq<Seq<char>> {
    seq![sibling_checkout(home)] + home_candidates_from(home, entries, 0)
}

/// The would-be checkouts of the home scan: `~/deepseek-harness`, then the
/// `deepseek-harness` children of each scanned directory and of each entry
/// in it. `entries[i]` lists the paths of the entries of the `i`-th of
/// [`home_scan_bases`].
pub fn home_scan_candidates(home: &str, entries: &Vec<Vec<String>>) -> (c: Vec<String>)
    ensures
        views(c@) == home_candidates(home@, entry_views(entries@)),
{
    let bases = home_scan_bases(home);
    assert(home_tops().len() == 8);
    assert(bases@.len() == views(bases@).len());
    let ghost ev = entry_views(entries@);
    let mut out: Vec<String> = Vec::new();
    out.push(join_path(home, "deepseek-harness"));
    assert(views(out@) =~= seq![sibling_checkout(home@)]);
    let mut i: usize = 0;
    while i < 8
        invariant
            i <= 8,
            bases@.len() == 8,
            views(bases@) == home_scan_bases_spec(home@),
            ev == entry_views(entries@),
            views(out@) + home_candidates_from(home@, ev, i as int) == home_candidates(home@, ev),
        decreases 8 - i,
    {
        let ghost before = views(out@);
        let ghost rest = home_candidates_from(home@, ev, i + 1);
        let ghost listed = entries_of(ev, i as int).map_values(|e: Seq<char>| sibling_checkout(e));
        assert(views(bases@)[i as int] == bases@[i as int]@);
        out.push(join_path(bases[i].as_str(), "deepseek-harness"));
        if i < entries.len() {
            let list = &entries[i];
            assert(ev[i as int] == views(list@));
            for j in 0..list.len()
                invariant
                    views(out@) == before + seq![sibling_checkout(home_scan_bases_spec(home@)[i as int])]
                        + listed.take(j as int),
                    listed == views(list@).map_values(|e: Seq<char>| sibling_checkout(e)),
            {
                let ghost mid = views(out@);
                out.push(join_path(list[j].as_str(), "deepseek-harness"));
                assert(views(out@) =~= mid.push(sibling_checkout(list@[j as int]@)));
                assert(listed.take(j + 1) =~= listed.take(j as int).push(listed[j as int]));
            }
            assert(listed.take(list.len() as int) =~= listed);
        } else {
            assert(listed =~= Seq::<Seq<char>>::empty());
            assert(views(out@) =~= before + seq![sibling_checkout(home_scan_bases_spec(home@)[i as int])] + listed);
        }
        assert(home_candidates_from(home@, ev, i as int) == seq![
            sibling_checkout(home_scan_bases_spec(home@)[i as int]),
        ] + listed + rest);
        assert(views(out@) + rest =~= before + home_candidates_from(home@, ev, i as int));
        i = i + 1;
    }
    assert(views(out@) =~= views(out@) + home_candidates_from(home@, ev, 8));
    out
}

/// Scans common home locations for the checkout: `~/deepseek-harness` and
/// `~/<projects>/*/deepseek-harness` for each of the usual project
/// directories. `entries[i]` lists the paths of the entries of the `i`-th of
/// [`home_scan_bases`]. Answers with the first of [`home_candidates`] that
/// [`is_repo_root`] confirms, every earlier one refused; `None` when it
/// refuses them all.
pub fn scan_home_for_repo(home: &str, entries: &Vec<Vec<String>>) -> (r: Option<String>)
    ensures
        first_root(home_candidates(home@, entry_views(entries@)), opt_view(r)),
{
    let candidates = home_scan_candidates(home, entries);
    first_repo_root(&candidates)
}

/// What checkout discovery starts from.
pub struct RepoSearch {
    /// The configured checkout (`DSH_REPO_DIR`), if any.
    pub configured: Option<String>,
    /// The working directory, if known.
    pub current_dir: Option<String>,
    /// The path of the running executable, if known.
    pub executable: Option<String>,
    /// The home directory, if known.
    pub home: Option<String>,
    /// The entries of each of [`home_scan_bases`] of the home directory.
    pub home_entries: Vec<Vec<String>>,
}

/// Every checkout root discovery may answer with, in the order it tries
/// them: the configured directory (when not blank), the walk up from the
/// working directory, the walk up from the executable's directory, then the
/// home scan.
pub open spec fn repo_search_candidates(
    configured: Option<Seq<char>>,
    current_dir: Option<Seq<char>>,
    executable: Option<Seq<char>>,
    home: Option<Seq<char>>,
    home_entries: Seq<Seq<Seq<char>>>,
) -> Seq<Seq<char>> {
    (match non_blank_spec(configured) {
        Some(d) => seq![d],
        None => Seq::<Seq<char>>::empty(),
    }) + (match current_dir {
        Some(d) => walk_candidates(d),
        None => Seq::<Seq<char>>::empty(),
    }) + (match executable {
        Some(e) => match path_parent(e) {
            Some(d) => walk_candidates(d),
            None => Seq::<Seq<char>>::empty(),
        },
        None => Seq::<Seq<char>>::empty(),
    }) + (match home {
        Some(h) => home_candidates(h, home_entries),
        None => Seq::<Seq<char>>::empty(),
    })
}

/// The candidates of a [`RepoSearch`].
pub open spec fn search_candidates(s: RepoSearch) -> Seq<Seq<char>> {
    repo_search_candidates(
        opt_view(s.configured),
        opt_view(s.current_dir),
        opt_view(s.executable),
        opt_view(s.home),
        entry_views(s.home_entries@),
    )
}

/// The places checkout discovery looks, in the order it looks.
#[derive(Clone, Copy)]
pub enum RepoSource {
    /// The configured checkout.
    Configured,
    /// A walk up from the working directory.
    WorkingDir,
    /// A walk up from the executable's directory.
    Executable,
    /// The scan of the usual home locations.
    HomeScan,
}

/// The source looked at after `s`, if any.
pub open spec fn following_source(s: RepoSource) -> Option<RepoSource> {
    match s {
        RepoSource::Configured => Some(RepoSource::WorkingDir),
        RepoSource::WorkingDir => Some(RepoSource::Executable),
        RepoSource::Executable => Some(RepoSource::HomeScan),
        RepoSource::HomeScan => None,
    }
}

/// How many sources are left from `s` on.
pub open spec fn sources_left(s: RepoSource) -> nat {
    match s {
        RepoSource::Configured => 4,
        RepoSource::WorkingDir => 3,
        RepoSource::Executable => 2,
        RepoSource::HomeScan => 1,
    }
}

/// Where checkout discovery stands after one source was looked at.
pub enum RepoStep {
    /// Look at this source next.
    Try(RepoSource),
    /// Discovery is over, with this answer.
    Done(Option<String>),
}

/// One step of checkout discovery, after `source` answered `found`: a found
/// checkout is the answer; otherwise the following source is tried, and
/// after the home scan there is no answer.
pub fn next_repo_source(source: RepoSource, found: Option<String>) -> (s: RepoStep)
    ensures
        found is Some ==> s == RepoStep::Done(found),
        found is None ==> s == match following_source(source) {
            Some(n) => RepoStep::Try(n),
            None => RepoStep::Done(None),
        },
{
    match found {
        Some(f) => RepoStep::Done(Some(f)),
        None => match source {
            RepoSource::Configured => RepoStep::Try(RepoSource::WorkingDir),
            RepoSource::WorkingDir => RepoStep::Try(RepoSource::Executable),
            RepoSource::Executable => RepoStep::Try(RepoSource::HomeScan),
            RepoSource::HomeScan => RepoStep::Done(None),
        },
    }
}

/// The checkout roots one source may answer with, in the order it tries them.
pub open spec fn source_candidates(s: RepoSearch, source: RepoSource) -> Seq<Seq<char>> {
    match source {
        RepoSource::Configured => match non_blank_spec(opt_view(s.configured)) {
            Some(d) => seq![d],
            None => Seq::<Seq<char>>::empty(),
        },
        RepoSource::WorkingDir => match opt_view(s.current_dir) {
            Some(d) => walk_candidates(d),
            None => Seq::<Seq<char>>::empty(),
        },
        RepoSource::Executable => match opt_view(s.executable) {
            Some(e) => match path_parent(e) {
                Some(d) => walk_candidates(d),
                None => Seq::<Seq<char>>::empty(),
            },
            None => Seq::<Seq<char>>::empty(),
        },
        RepoSource::HomeScan => match opt_view(s.home) {
            Some(h) => home_candidates(h, entry_views(s.home_entries@)),
            None => Seq::<Seq<char>>::empty(),
        },
    }
}

/// Looks at one source: the configured directory when it is a checkout
/// root, the walks up from the working directory and from the executable's
/// directory, or the home scan.
fn probe_source(search: &RepoSearch, source: RepoSource) -> (found: Option<String>)
    ensures
        first_root(source_candidates(*search, source), opt_view(found)),
{
    match source {
        RepoSource::Configured => match non_blank(search.configured.clone()) {
            Some(dir) => {
                let d = dir.as_str();
                let hit = is_repo_root(d);
                assert(call_ensures(is_repo_root, (d,), hit));
                assert(root_answer(dir@, hit));
                let ghost cands = source_candidates(*search, source);
                assert(cands =~= seq![dir@]);
                if hit {
                    assert(cands[0] == dir@);
                    Some(dir)
                } else {
                    assert forall|j: int| 0 <= j < cands.len() implies root_answer(
                        #[trigger] cands[j],
                        false,
                    ) by {
                        assert(cands[j] == dir@);
                    }
                    None
                }
            },
            None => None,
        },
        RepoSource::WorkingDir => match &search.current_dir {
            Some(cwd) => walk_up_to_repo(cwd.as_str()),
            None => None,
        },
        RepoSource::Executable => match &search.executable {
            Some(exe) => match parent_dir(exe.as_str()) {
                Some(dir) => walk_up_to_repo(dir.as_str()),
                None => None,
            },
            None => None,
        },
        RepoSource::HomeScan => match &search.home {
            Some(home) => scan_home_for_repo(home.as_str(), &search.home_entries),
            None => None,
        },
    }
}

/// The candidates of the sources looked at before `source`.
pub open spec fn candidates_before(s: RepoSearch, source: RepoSource) -> Seq<Seq<char>> {
    match source {
        RepoSource::Configured => Seq::<Seq<char>>::empty(),
        RepoSource::WorkingDir => source_candidates(s, RepoSource::Configured),
        RepoSource::Executable => source_candidates(s, RepoSource::Configured) + source_candidates(
            s,
            RepoSource::WorkingDir,
        ),
        RepoSource::HomeScan => source_candidates(s, RepoSource::Configured) + source_candidates(
            s,
            RepoSource::WorkingDir,
        ) + source_candidates(s, RepoSource::Executable),
    }
}

/// The candidates of the sources looked at after `source`.
pub open spec fn candidates_after(s: RepoSearch, source: RepoSource) -> Seq<Seq<char>> {
    match source {
        RepoSource::Configured => source_candidates(s, RepoSource::WorkingDir) + source_candidates(
            s,
            RepoSource::Executable,
        ) + source_candidates(s, RepoSource::HomeScan),
        RepoSource::WorkingDir => source_candidates(s, RepoSource::Executable) + source_candidates(
            s,
            RepoSource::HomeScan,
        ),
        RepoSource::Executable => source_candidates(s, RepoSource::HomeScan),
        RepoSource::HomeScan => Seq::<Seq<char>>::empty(),
    }
}

proof fn lemma_search_splits(s: RepoSearch, source: RepoSource)
    ensures
        search_candidates(s) =~= candidates_before(s, source) + source_candidates(s, source)
            + candidates_after(s, source),
        following_source(source) matches Some(n) ==> candidates_before(s, n) =~= candidates_before(
            s,
            source,
        ) + source_candidates(s, source),
{
    let a = source_candidates(s, RepoSource::Configured);
    let b = source_candidates(s, RepoSource::WorkingDir);
    let c = source_candidates(s, RepoSource::Executable);
    let d = source_candidates(s, RepoSource::HomeScan);
    assert(search_candidates(s) == a + b + c + d);
    assert(a + b + c + d =~= a + (b + c + d));
    assert(a + b + c + d =~= (a + b) + (c + d));
    assert(Seq::<Seq<char>>::empty() + a =~= a);
    assert(a + b + c + d + Seq::<Seq<char>>::empty() =~= a + b + c + d);
}

proof fn lemma_first_root_after_misses(a: Seq<Seq<char>>, b: Seq<Seq<char>>, r: Option<Seq<char>>)
    requires
        first_root(a, None),
        first_root(b, r),
    ensures
        first_root(a + b, r),
{
    let ab = a + b;
    match r {
        Some(c) => {
            let k = choose|k: int|
                0 <= k < b.len() && b[k] == c && root_answer(c, true) && forall|j: int|
                    0 <= j < k ==> root_answer(#[trigger] b[j], false);
            assert(ab[a.len() + k] == c);
            assert forall|j: int| 0 <= j < a.len() + k implies root_answer(#[trigger] ab[j], false) by {
                if j < a.len() {
                    assert(ab[j] == a[j]);
                } else {
                    assert(ab[j] == b[j - a.len()]);
                }
            }
        },
        None => {
            assert forall|j: int| 0 <= j < ab.len() implies root_answer(#[trigger] ab[j], false) by {
                if j < a.len() {
                    assert(ab[j] == a[j]);
                } else {
                    assert(ab[j] == b[j - a.len()]);
                }
            }
        },
    }
}

proof fn lemma_first_root_before_rest(a: Seq<Seq<char>>, rest: Seq<Seq<char>>, c: Seq<char>)
    requires
        first_root(a, Some(c)),
    ensures
        first_root(a + rest, Some(c)),
{
    let k = choose|k: int|
        0 <= k < a.len() && a[k] == c && root_answer(c, true) && forall|j: int|
            0 <= j < k ==> root_answer(#[trigger] a[j], false);
    let ar = a + rest;
    assert(ar[k] == c);
    assert forall|j: int| 0 <= j < k implies root_answer(#[trigger] ar[j], false) by {
        assert(ar[j] == a[j]);
    }
}

/// The checkout root to launch the server from: the sources are looked at
/// in order with [`next_repo_source`] (the configured directory, a walk up
/// from the working directory, a walk up from the executable, then a scan of
/// common home locations) and the first that finds a checkout answers. So
/// the answer is the first of [`search_candidates`] that [`is_repo_root`]
/// confirms, every earlier one refused, and `None` when it refuses them all;
/// a configured directory that is a checkout root always wins.
pub fn resolve_repo_dir(search: &RepoSearch) -> (r: Option<String>)
    ensures
        first_root(search_candidates(*search), opt_view(r)),
        search.configured matches Some(c) ==> (!all_whitespace(c@) ==> (opt_view(r) == Some(c@)
            || root_answer(c@, false))),
{
    let mut source = RepoSource::Configured;
    loop
        invariant
            first_root(candidates_before(*search, source), None),
        decreases sources_left(source),
    {
        let found = probe_source(search, source);
        proof {
            lemma_search_splits(*search, source);
            lemma_first_root_after_misses(
                candidates_before(*search, source),
                source_candidates(*search, source),
                opt_view(found),
            );
            if found is Some {
                lemma_first_root_before_rest(
                    candidates_before(*search, source) + source_candidates(*search, source),
                    candidates_after(*search, source),
                    found->0@,
                );
            }
            if source is HomeScan {
                assert(candidates_after(*search, source) =~= Seq::<Seq<char>>::empty());
            }
        }
        match next_repo_source(source, found) {
            RepoStep::Done(r) => {
                proof {
                    if search.configured is Some && !all_whitespace(search.configured->0@) {
                        law_configured_checkout_wins(*search, opt_view(r));
                    }
                }
                return r;
            },
            RepoStep::Try(next) => {
                source = next;
            },
        }
    }
}

/// Extra directories searched for the launch command when it is not on
/// `PATH` (Finder-launched apps inherit a minimal `PATH`).
pub open spec fn program_fallback_dirs() -> Seq<Seq<char>> {
    seq!["/opt/homebrew/bin"@, "/usr/local/bin"@, "~/.local/share/pnpm"@]
}

/// The directories a program name is looked up in, in order: the entries of
/// `PATH` (when set and not blank; empty entries included), then
/// [`program_fallback_dirs`] with `~` replaced by the home directory.
pub open spec fn program_search_dirs_spec(path_env: Option<Seq<char>>, home: Seq<char>) -> Seq<
    Seq<char>,
> {
    (match non_blank_spec(path_env) {
        Some(p) => pieces(p, ':'),
        None => Seq::<Seq<char>>::empty(),
    }) + program_fallback_dirs().map_values(|d: Seq<char>| replace_char_spec(d, '~', home))
}

/// The directories a program name is looked up in, in order.
pub fn program_search_dirs(path_env: Option<String>, home: &str) -> (d: Vec<String>)
    ensures
        views(d@) == program_search_dirs_spec(opt_view(path_env), home@),
{
    let mut dirs: Vec<String> = match non_blank(path_env) {
        Some(p) => split_at_char(p.as_str(), ':'),
        None => Vec::new(),
    };
    let ghost first = views(dirs@);
    let fallback = vec!["/opt/homebrew/bin", "/usr/local/bin", "~/.local/share/pnpm"];
    let ghost extra = program_fallback_dirs().map_values(|d: Seq<char>| replace_char_spec(d, '~', home@));
    for i in 0..fallback.len()
        invariant
            fallback@.len() == 3,
            forall|j: int| 0 <= j < 3 ==> #[trigger] fallback@[j]@ == program_fallback_dirs()[j],
            extra == program_fallback_dirs().map_values(|d: Seq<char>| replace_char_spec(d, '~', home@)),
            views(dirs@) == first + extra.take(i as int),
    {
        let ghost before = views(dirs@);
        dirs.push(replace_char(fallback[i], '~', home));
        assert(views(dirs@) =~= before.push(extra[i as int]));
        assert(extra.take(i + 1) =~= extra.take(i as int).push(extra[i as int]));
    }
    assert(extra.take(3) =~= extra);
    dirs
}

/// The paths a program name is looked for at: each search directory joined
/// with the name.
pub open spec fn program_candidates(name: Seq<char>, path_env: Option<Seq<char>>, home: Seq<char>) -> Seq<
    Seq<char>,
> {
    program_search_dirs_spec(path_env, home).map_values(|d: Seq<char>| path_joined(d, name))
}

/// What a name holding a `/` resolves to, once the file system has answered
/// whether it names a file: the name itself when it does, nothing otherwise.
pub fn checked_program(name: &str, is_file: bool) -> (r: Option<String>)
    ensures
        is_file ==> (r matches Some(p) && p@ == name@),
        !is_file ==> r is None,
{
    if is_file {
        Some(String::from_str(name))
    } else {
        None
    }
}

/// The paths a program name is looked for at, in order.
pub fn program_paths(name: &str, path_env: Option<String>, home: &str) -> (c: Vec<String>)
    ensures
        views(c@) == program_candidates(name@, opt_view(path_env), home@),
{
    let dirs = program_search_dirs(path_env, home);
    let ghost want = program_candidates(name@, opt_view(path_env), home@);
    let mut out: Vec<String> = Vec::new();
    for i in 0..dirs.len()
        invariant
            views(dirs@) == program_search_dirs_spec(opt_view(path_env), home@),
            want == program_candidates(name@, opt_view(path_env), home@),
            views(out@) == want.take(i as int),
    {
        let ghost before = views(out@);
        let candidate = join_path(dirs[i].as_str(), name);
        assert(views(dirs@)[i as int] == dirs@[i as int]@);
        assert(want[i as int] == candidate@);
        out.push(candidate);
        assert(views(out@) =~= before.push(candidate@));
        assert(want.take(i + 1) =~= want.take(i as int).push(want[i as int]));
    }
    assert(want.take(dirs.len() as int) =~= want);
    out
}

/// The first of `candidates` that names a file, asking [`names_file`] about
/// each in turn with [`search_step`]; `None` when none does.
fn first_file(candidates: &Vec<String>) -> (r: Option<String>)
    ensures
        first_file_of(views(candidates@), opt_view(r)),
{
    let n = candidates.len();
    let ghost cands = views(candidates@);
    let mut step = search_start(n);
    loop
        invariant
            n == candidates.len(),
            cands == views(candidates@),
            step matches SearchStep::Probe(i) ==> i < n && forall|j: int|
                0 <= j < i ==> file_answer(#[trigger] cands[j], false),
            step matches SearchStep::Found(i) ==> i < n && file_answer(cands[i as int], true)
                && forall|j: int| 0 <= j < i ==> file_answer(#[trigger] cands[j], false),
            step is NotFound ==> forall|j: int| 0 <= j < n ==> file_answer(#[trigger] cands[j], false),
        decreases
                match step {
                    SearchStep::Probe(i) => n - i + 1,
                    _ => 0,
                },
    {
        match step {
            SearchStep::Probe(i) => {
                let p = candidates[i].as_str();
                let hit = names_file(p);
                assert(cands[i as int] == p@);
                assert(call_ensures(names_file, (p,), hit));
                assert(file_answer(cands[i as int], hit));
                step = search_step(n, i, hit);
                assert forall|j: int| 0 <= j < i + 1 && !hit implies file_answer(
                    #[trigger] cands[j],
                    false,
                ) by {
                    if j == i {
                        assert(file_answer(cands[i as int], hit));
                    }
                }
            },
            SearchStep::Found(i) => {
                let found = candidates[i].clone();
                assert(cands[i as int] == found@);
                assert(first_file_of(cands, Some(found@)));
                return Some(found);
            },
            SearchStep::NotFound => {
                return None;
            },
        }
    }
}

/// Whether `r` is what looking up the program `name` settles on: for a name
/// holding a `/`, the name itself exactly when [`names_file`] confirms it;
/// for any other name, the first of [`program_candidates`] that
/// [`names_file`] confirms, every earlier one refused, or nothing when it
/// refuses them all.
pub open spec fn program_found(
    name: Seq<char>,
    path_env: Option<Seq<char>>,
    home: Seq<char>,
    r: Option<Seq<char>>,
) -> bool {
    if name.contains('/') {
        match r {
            Some(p) => p == name && file_answer(name, true),
            None => file_answer(name, false),
        }
    } else {
        first_file_of(program_candidates(name, path_env, home), r)
    }
}

/// Locates `name` on `PATH` (or among [`program_fallback_dirs`]); a name with
/// a path separator is used as it is. A name holding a `/` resolves to
/// itself exactly when [`names_file`] confirms it (decided by
/// [`checked_program`]); any other name resolves to the first of
/// [`program_candidates`] that [`names_file`] confirms, every earlier one
/// refused, and to `None` when it refuses them all.
pub fn resolve_program(name: &str, path_env: Option<String>, home: &str) -> (r: Option<String>)
    ensures
        program_found(name@, opt_view(path_env), home@, opt_view(r)),
        name@.contains('/') ==> ((opt_view(r) == Some(name@) && file_answer(name@, true)) || (
        r is None && file_answer(name@, false))),
{
    if contains_char(name, '/') {
        let is_file = names_file(name);
        assert(call_ensures(names_file, (name,), is_file));
        let r = checked_program(name, is_file);
        proof {
            law_path_like_name_used_as_given(name@, opt_view(path_env), home@, opt_view(r));
        }
        return r;
    }
    let candidates = program_paths(name, path_env, home);
    first_file(&candidates)
}

/// A configured directory that is not blank is the first place checkout
/// discovery looks, so whatever the other places hold, discovery answers
/// with it unless [`is_repo_root`] refused it: a configured checkout root
/// always wins.
pub proof fn law_configured_checkout_wins(s: RepoSearch, r: Option<Seq<char>>)
    requires
        s.configured is Some,
        !all_whitespace(s.configured->0@),
        first_root(search_candidates(s), r),
    ensures
        search_candidates(s).len() > 0,
        search_candidates(s)[0] == s.configured->0@,
        r == Some(s.configured->0@) || root_answer(s.configured->0@, false),
{
    let c = s.configured->0@;
    let cands = search_candidates(s);
    assert(non_blank_spec(opt_view(s.configured)) == Some(c));
    assert(cands[0] == c);
    match r {
        Some(x) => {
            let k = choose|k: int|
                0 <= k < cands.len() && cands[k] == x && root_answer(x, true) && forall|j: int|
                    0 <= j < k ==> root_answer(#[trigger] cands[j], false);
            if k > 0 {
                assert(root_answer(cands[0], false));
            }
        },
        None => {
            assert(root_answer(cands[0], false));
        },
    }
}

/// A program name holding a `/` is taken as it is, never looked up on `PATH`
/// or in the fallback directories: it resolves to itself when
/// [`names_file`] confirms it and to nothing when it refuses it.
pub proof fn law_path_like_name_used_as_given(
    name: Seq<char>,
    path_env: Option<Seq<char>>,
    home: Seq<char>,
    r: Option<Seq<char>>,
)
    requires
        name.contains('/'),
        program_found(name, path_env, home, r),
    ensures
        (r == Some(name) && file_answer(name, true)) || (r is None && file_answer(name, false)),
{
}

} // verus!

verus! {

proof fn lemma_walk_shape(start: Seq<char>, levels: nat)
    requires
        levels > 0,
    ensures
        with_siblings(walk_dirs(start, levels)).len() >= 2,
        with_siblings(walk_dirs(start, levels)).len() <= 2 * levels,
        with_siblings(walk_dirs(start, levels))[0] == start,
        with_siblings(walk_dirs(start, levels))[1] == sibling_checkout(start),
    decreases levels,
{
    let rest = match path_parent(start) {
        Some(p) => walk_dirs(p, (levels - 1) as nat),
        None => Seq::<Seq<char>>::empty(),
    };
    let dirs = walk_dirs(start, levels);
    assert(dirs == seq![start] + rest);
    assert(dirs.drop_first() =~= rest);
    assert(dirs[0] == start);
    assert(with_siblings(dirs) == seq![start, sibling_checkout(start)] + with_siblings(rest));
    match path_parent(start) {
        Some(p) => {
            if levels > 1 {
                lemma_walk_shape(p, (levels - 1) as nat);
            } else {
                assert(rest =~= Seq::<Seq<char>>::empty());
                assert(with_siblings(rest).len() == 0);
            }
        },
        None => {
            assert(with_siblings(rest).len() == 0);
        },
    }
}

/// A walk up to the checkout tries the starting directory first, then its
/// `deepseek-harness` sibling, and tries at most 16 places (8 levels).
pub proof fn law_walk_starts_here_and_is_bounded(start: Seq<char>)
    ensures
        walk_candidates(start).len() >= 2,
        walk_candidates(start).len() <= 16,
        walk_candidates(start)[0] == start,
        walk_candidates(start)[1] == sibling_checkout(start),
{
    lemma_walk_shape(start, walk_levels());
}

proof fn lemma_walk_dirs_chain(chain: Seq<Seq<char>>, n: nat)
    requires
        n <= chain.len(),
        forall|k: int| 0 <= k < n - 1 ==> path_parent(#[trigger] chain[k]) == Some(chain[k + 1]),
    ensures
        walk_dirs(chain[0], n) == chain.take(n as int),
    decreases n,
{
    if n == 0 {
        assert(chain.take(0) =~= Seq::<Seq<char>>::empty());
    } else if n == 1 {
        assert(walk_dirs(chain[0], 0) =~= Seq::<Seq<char>>::empty());
        match path_parent(chain[0]) {
            Some(p) => {
                assert(walk_dirs(p, 0) =~= Seq::<Seq<char>>::empty());
            },
            None => {},
        }
        assert(chain.take(1) =~= seq![chain[0]]);
    } else {
        let rest = chain.drop_first();
        assert forall|k: int| 0 <= k < n - 2 implies path_parent(#[trigger] rest[k]) == Some(
            rest[k + 1],
        ) by {
            assert(rest[k] == chain[k + 1]);
            assert(rest[k + 1] == chain[k + 2]);
            assert(path_parent(chain[k + 1]) == Some(chain[k + 2]));
        }
        lemma_walk_dirs_chain(rest, (n - 1) as nat);
        assert(path_parent(chain[0]) == Some(chain[1]));
        assert(rest[0] == chain[1]);
        assert(chain.take(n as int) =~= seq![chain[0]] + rest.take(n - 1));
    }
}

proof fn lemma_walk_dirs_short_chain(chain: Seq<Seq<char>>, n: nat)
    requires
        1 <= chain.len() <= n,
        forall|k: int| 0 <= k < chain.len() - 1 ==> path_parent(#[trigger] chain[k]) == Some(
            chain[k + 1],
        ),
        path_parent(chain.last()) is None,
    ensures
        walk_dirs(chain[0], n) == chain,
    decreases chain.len(),
{
    if chain.len() == 1 {
        assert(chain.last() == chain[0]);
        assert(walk_dirs(chain[0], n) =~= seq![chain[0]]);
        assert(chain =~= seq![chain[0]]);
    } else {
        let rest = chain.drop_first();
        assert forall|k: int| 0 <= k < rest.len() - 1 implies path_parent(#[trigger] rest[k])
            == Some(rest[k + 1]) by {
            assert(rest[k] == chain[k + 1]);
            assert(rest[k + 1] == chain[k + 2]);
            assert(path_parent(chain[k + 1]) == Some(chain[k + 2]));
        }
        assert(rest.last() == chain.last());
        lemma_walk_dirs_short_chain(rest, (n - 1) as nat);
        assert(path_parent(chain[0]) == Some(chain[1]));
        assert(chain =~= seq![chain[0]] + rest);
    }
}

/// Along a chain of directories each the parent of the one before, a walk
/// up from the first examines exactly the first 8 of them, each followed by
/// its `deepseek-harness` sibling: a checkout 7 levels up is reached, one 8
/// levels up is not.
pub proof fn law_walk_stops_after_eight_levels(chain: Seq<Seq<char>>)
    requires
        chain.len() >= 8,
        forall|k: int| 0 <= k < 7 ==> path_parent(#[trigger] chain[k]) == Some(chain[k + 1]),
    ensures
        walk_candidates(chain[0]) == with_siblings(chain.take(8)),
{
    lemma_walk_dirs_chain(chain, 8);
}

/// Along a chain that ends at a directory without a parent (the root)
/// within 8 levels, a walk up from the first examines every directory of the
/// chain, each followed by its `deepseek-harness` sibling.
pub proof fn law_walk_reaches_the_root(chain: Seq<Seq<char>>)
    requires
        1 <= chain.len() <= 8,
        forall|k: int| 0 <= k < chain.len() - 1 ==> path_parent(#[trigger] chain[k]) == Some(
            chain[k + 1],
        ),
        path_parent(chain.last()) is None,
    ensures
        walk_candidates(chain[0]) == with_siblings(chain),
{
    lemma_walk_dirs_short_chain(chain, 8);
}

} // verus!

