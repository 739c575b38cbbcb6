//! Discovering wine and proton runners: classifying scanned directory
//! entries by name, deduplicating paths while keeping first occurrences, and
//! assembling the candidate list a game can run under. Scanning directories
//! is the caller's business; every decision over the scanned names is
//! verified here.

use vstd::prelude::*;
use crate::strutil::{spec_base_name, base_name, spec_ascii_lower, ascii_lower, has_substr,
    contains_sub, str_eq};
use crate::game::GameType;

verus! {

/// The kind of runner a directory holds.
#[derive(PartialEq, Eq, Structural, Clone, Copy, Debug)]
pub enum RunnerType {
    Proton,
    Wine,
}

/// A discovered runner: its directory and its kind.
pub struct Runner {
    /// The runner's directory.
    pub path: String,
    /// Whether it is a proton or a plain wine runner.
    pub runner_type: RunnerType,
}

/// The view of a runner list: each runner as its path and kind.
pub open spec fn runner_views(rs: Seq<Runner>) -> Seq<(Seq<char>, RunnerType)> {
    rs.map_values(|r: Runner| (r.path@, r.runner_type))
}

/// A file mode with any execute bit set.
pub fn is_executable(mode: u32) -> (r: bool)
    ensures
        r == ((mode & 0o111) != 0),
{
    mode & 0o111 != 0
}

/// How a directory name classifies: a name mentioning proton is a proton
/// runner, else one mentioning wine is a wine runner, else it is no runner.
/// The name is the path's last component, compared case-insensitively.
pub open spec fn spec_runner_kind(path: Seq<char>) -> Option<RunnerType> {
    if has_substr(spec_ascii_lower(spec_base_name(path)), "proton"@) {
        Some(RunnerType::Proton)
    } else if has_substr(spec_ascii_lower(spec_base_name(path)), "wine"@) {
        Some(RunnerType::Wine)
    } else {
        None
    }
}

/// Classify a directory path as a runner by its name.
pub fn detect_runner_type(path: &str) -> (r: Option<RunnerType>)
    ensures
        r == spec_runner_kind(path@),
{
    let name = base_name(path);
    let lower = ascii_lower(name.as_str());
    if contains_sub(lower.as_str(), "proton") {
        Some(RunnerType::Proton)
    } else if contains_sub(lower.as_str(), "wine") {
        Some(RunnerType::Wine)
    } else {
        None
    }
}

/// The list with later repetitions of a path removed: each path keeps its
/// first occurrence only.
pub open spec fn spec_dedup(s: Seq<Seq<char>>) -> Seq<Seq<char>>
    decreases s.len(),
{
    if s.len() == 0 {
        s
    } else if s.drop_last().contains(s.last()) {
        spec_dedup(s.drop_last())
    } else {
        spec_dedup(s.drop_last()).push(s.last())
    }
}

/// Membership in a pushed sequence: the old members plus the pushed element.
proof fn lemma_push_contains(s: Seq<Seq<char>>, e: Seq<char>, x: Seq<char>)
    ensures
        s.push(e).contains(x) <==> (s.contains(x) || x == e),
{
    if s.push(e).contains(x) {
        let i = choose|i: int| 0 <= i < s.push(e).len() && s.push(e)[i] == x;
        if i < s.len() {
            assert(s[i] == x);
            assert(s.contains(x));
        } else {
            assert(x == e);
        }
    }
    if s.contains(x) {
        let i = choose|i: int| 0 <= i < s.len() && s[i] == x;
        assert(s.push(e)[i] == x);
        assert(s.push(e).contains(x));
    }
    if x == e {
        assert(s.push(e)[s.len() as int] == x);
        assert(s.push(e).contains(x));
    }
}

/// Deduplication keeps exactly the members.
proof fn lemma_dedup_membership(s: Seq<Seq<char>>, x: Seq<char>)
    ensures
        spec_dedup(s).contains(x) <==> s.contains(x),
    decreases s.len(),
{
    if s.len() > 0 {
        lemma_dedup_membership(s.drop_last(), x);
        assert(s =~= s.drop_last().push(s.last()));
        lemma_push_contains(s.drop_last(), s.last(), x);
        if s.drop_last().contains(s.last()) {
            lemma_dedup_membership(s.drop_last(), s.last());
        } else {
            lemma_push_contains(spec_dedup(s.drop_last()), s.last(), x);
        }
    }
}

/// Whether a path list holds the given path.
fn paths_contain(v: &Vec<String>, p: &str) -> (r: bool)
    ensures
        r == v.deep_view().contains(p@),
{
    let n = v.len();
    let mut i: usize = 0;
    while i < n
        invariant
            n == v@.len(),
            i <= n,
            forall|k: int| 0 <= k < i ==> #[trigger] v@[k]@ != p@,
        decreases n - i,
    {
        if str_eq(v[i].as_str(), p) {
            assert(v.deep_view()[i as int] == p@);
            return true;
        }
        i += 1;
    }
    assert forall|k: int| 0 <= k < v.deep_view().len() implies #[trigger] v.deep_view()[k]
        != p@ by {
        assert(v.deep_view()[k] == v@[k]@);
    }
    false
}

/// Remove later repetitions of a path, keeping each path's first occurrence.
/// The caller resolves paths to a canonical form first where two spellings
/// should count as one.
pub fn unique_paths(paths: &Vec<String>) -> (r: Vec<String>)
    ensures
        r.deep_view() == spec_dedup(paths.deep_view()),
{
    let n = paths.len();
    let mut r: Vec<String> = Vec::new();
    let mut i: usize = 0;
    assert(paths.deep_view().take(0) =~= Seq::<Seq<char>>::empty());
    while i < n
        invariant
            n == paths@.len(),
            i <= n,
            paths.deep_view().len() == n,
            forall|k: int| 0 <= k < n ==> paths.deep_view()[k] == #[trigger] paths@[k]@,
            r.deep_view() == spec_dedup(paths.deep_view().take(i as int)),
        decreases n - i,
    {
        let ghost prefix = paths.deep_view().take(i as int);
        let ghost full = paths.deep_view().take(i + 1);
        assert(full.drop_last() =~= prefix);
        assert(full.last() == paths.deep_view()[i as int]);
        proof {
            lemma_dedup_membership(prefix, paths.deep_view()[i as int]);
        }
        if !paths_contain(&r, paths[i].as_str()) {
            let ghost old_r = r.deep_view();
            r.push(paths[i].clone());
            assert(r.deep_view() =~= old_r.push(paths@[i as int]@));
        }
        i += 1;
    }
    assert(paths.deep_view().take(n as int) =~= paths.deep_view());
    r
}

/// A scanned entry is a proton candidate when its name mentions proton.
pub open spec fn spec_proton_entry(e: Seq<char>) -> bool {
    has_substr(spec_ascii_lower(spec_base_name(e)), "proton"@)
}

/// The scanned entries whose names mention proton, in order.
pub open spec fn spec_keep_proton(s: Seq<Seq<char>>) -> Seq<Seq<char>>
    decreases s.len(),
{
    if s.len() == 0 {
        s
    } else if spec_proton_entry(s.first()) {
        seq![s.first()] + spec_keep_proton(s.drop_first())
    } else {
        spec_keep_proton(s.drop_first())
    }
}

/// Every kept entry is a proton candidate.
proof fn lemma_keep_proton_elements(s: Seq<Seq<char>>)
    ensures
        forall|k: int|
            0 <= k < spec_keep_proton(s).len() ==> spec_proton_entry(
                #[trigger] spec_keep_proton(s)[k],
            ),
    decreases s.len(),
{
    if s.len() > 0 {
        lemma_keep_proton_elements(s.drop_first());
        if spec_proton_entry(s.first()) {
            assert forall|k: int| 0 <= k < spec_keep_proton(s).len() implies spec_proton_entry(
                #[trigger] spec_keep_proton(s)[k],
            ) by {
                if k == 0 {
                    assert(spec_keep_proton(s)[0] == s.first());
                } else {
                    assert(spec_keep_proton(s)[k] == spec_keep_proton(s.drop_first())[k - 1]);
                }
            }
        } else {
            assert forall|k: int| 0 <= k < spec_keep_proton(s).len() implies spec_proton_entry(
                #[trigger] spec_keep_proton(s)[k],
            ) by {
                assert(spec_keep_proton(s)[k] == spec_keep_proton(s.drop_first())[k]);
            }
        }
    }
}

/// Every deduplicated entry is a member of the original list.
proof fn lemma_dedup_elements(s: Seq<Seq<char>>)
    ensures
        forall|k: int| 0 <= k < spec_dedup(s).len() ==> s.contains(#[trigger] spec_dedup(s)[k]),
    decreases s.len(),
{
    if s.len() > 0 {
        lemma_dedup_elements(s.drop_last());
        assert forall|k: int| 0 <= k < spec_dedup(s).len() implies s.contains(
            #[trigger] spec_dedup(s)[k],
        ) by {
            if s.drop_last().contains(s.last()) {
                assert(s.drop_last().contains(spec_dedup(s)[k]));
                let i = choose|i: int|
                    0 <= i < s.drop_last().len() && s.drop_last()[i] == spec_dedup(s)[k];
                assert(s[i] == spec_dedup(s)[k]);
            } else {
                if k < spec_dedup(s).len() - 1 {
                    assert(s.drop_last().contains(spec_dedup(s.drop_last())[k]));
                    let i = choose|i: int|
                        0 <= i < s.drop_last().len() && s.drop_last()[i] == spec_dedup(s)[k];
                    assert(s[i] == spec_dedup(s)[k]);
                } else {
                    assert(spec_dedup(s)[k] == s.last());
                }
            }
        }
    }
}

/// The proton runners among scanned entries: entries whose names mention
/// proton, first occurrences only, each classified as a proton runner. The
/// caller hands over the scanned directory entries.
pub fn find_proton_dirs(entries: &Vec<String>) -> (r: Vec<Runner>)
    ensures
        runner_views(r@) == spec_dedup(spec_keep_proton(entries.deep_view())).map_values(
            |p: Seq<char>| (p, RunnerType::Proton),
        ),
{
    let n = entries.len();
    let mut kept: Vec<String> = Vec::new();
    let mut i: usize = 0;
    assert(entries.deep_view().skip(0) =~= entries.deep_view());
    while i < n
        invariant
            n == entries@.len(),
            i <= n,
            entries.deep_view().len() == n,
            forall|k: int| 0 <= k < n ==> entries.deep_view()[k] == #[trigger] entries@[k]@,
            spec_keep_proton(entries.deep_view()) =~= kept.deep_view() + spec_keep_proton(
                entries.deep_view().skip(i as int),
            ),
        decreases n - i,
    {
        let ghost rest = entries.deep_view().skip(i as int);
        assert(rest.first() == entries.deep_view()[i as int]);
        assert(rest.drop_first() =~= entries.deep_view().skip(i + 1));
        let name = base_name(entries[i].as_str());
        let lower = ascii_lower(name.as_str());
        if contains_sub(lower.as_str(), "proton") {
            let ghost old_kept = kept.deep_view();
            kept.push(entries[i].clone());
            assert(kept.deep_view() =~= old_kept.push(entries@[i as int]@));
            assert(kept.deep_view() + spec_keep_proton(entries.deep_view().skip(i + 1))
                =~= old_kept + (seq![rest.first()] + spec_keep_proton(rest.drop_first())));
        }
        i += 1;
    }
    assert(entries.deep_view().skip(n as int) =~= Seq::<Seq<char>>::empty());
    assert(kept.deep_view() =~= spec_keep_proton(entries.deep_view()));
    let uniq = unique_paths(&kept);
    proof {
        lemma_keep_proton_elements(entries.deep_view());
        lemma_dedup_elements(kept.deep_view());
    }
    let m = uniq.len();
    let mut r: Vec<Runner> = Vec::new();
    let mut j: usize = 0;
    while j < m
        invariant
            m == uniq@.len(),
            j <= m,
            uniq.deep_view().len() == m,
            forall|k: int| 0 <= k < m ==> uniq.deep_view()[k] == #[trigger] uniq@[k]@,
            uniq.deep_view() == spec_dedup(spec_keep_proton(entries.deep_view())),
            forall|k: int|
                0 <= k < m ==> spec_proton_entry(#[trigger] uniq.deep_view()[k]),
            r@.len() == j,
            forall|k: int|
                0 <= k < j ==> (#[trigger] r@[k]).path@ == uniq.deep_view()[k] && r@[k].runner_type
                    == RunnerType::Proton,
        decreases m - j,
    {
        assert(spec_proton_entry(uniq.deep_view()[j as int]));
        r.push(Runner { path: uniq[j].clone(), runner_type: RunnerType::Proton });
        j += 1;
    }
    assert(runner_views(r@) =~= spec_dedup(spec_keep_proton(entries.deep_view())).map_values(
        |p: Seq<char>| (p, RunnerType::Proton),
    ));
    r
}

/// A scanned compatibility-tools entry, as the caller saw it: its path and
/// whether its `bin` directory holds an executable wine binary.
pub struct WineCandidate {
    /// The entry's directory.
    pub path: String,
    /// Whether an executable wine, wine64 or wine32 sits under its `bin`.
    pub has_wine_binary: bool,
}

/// The runners among scanned candidates: each entry with a wine binary whose
/// name classifies as a runner, in order.
pub open spec fn spec_wine_runners(s: Seq<WineCandidate>) -> Seq<(Seq<char>, RunnerType)>
    decreases s.len(),
{
    if s.len() == 0 {
        Seq::empty()
    } else if s.first().has_wine_binary && spec_runner_kind(s.first().path@) is Some {
        seq![(s.first().path@, spec_runner_kind(s.first().path@).unwrap())] + spec_wine_runners(
            s.drop_first(),
        )
    } else {
        spec_wine_runners(s.drop_first())
    }
}

/// The paths of a runner-view list.
pub open spec fn runner_paths(s: Seq<(Seq<char>, RunnerType)>) -> Seq<Seq<char>> {
    s.map_values(|p: (Seq<char>, RunnerType)| p.0)
}

/// The runner list with later repetitions of a path removed: each path keeps
/// its first occurrence only.
pub open spec fn spec_dedup_runners(s: Seq<(Seq<char>, RunnerType)>) -> Seq<
    (Seq<char>, RunnerType),
>
    decreases s.len(),
{
    if s.len() == 0 {
        s
    } else if runner_paths(s.drop_last()).contains(s.last().0) {
        spec_dedup_runners(s.drop_last())
    } else {
        spec_dedup_runners(s.drop_last()).push(s.last())
    }
}

/// Runner deduplication keeps exactly the paths.
proof fn lemma_dedup_runners_membership(s: Seq<(Seq<char>, RunnerType)>, p: Seq<char>)
    ensures
        runner_paths(spec_dedup_runners(s)).contains(p) <==> runner_paths(s).contains(p),
    decreases s.len(),
{
    if s.len() > 0 {
        lemma_dedup_runners_membership(s.drop_last(), p);
        assert(runner_paths(s) =~= runner_paths(s.drop_last()).push(s.last().0));
        lemma_push_contains(runner_paths(s.drop_last()), s.last().0, p);
        if !runner_paths(s.drop_last()).contains(s.last().0) {
            assert(runner_paths(spec_dedup_runners(s)) =~= runner_paths(
                spec_dedup_runners(s.drop_last()),
            ).push(s.last().0));
            lemma_push_contains(runner_paths(spec_dedup_runners(s.drop_last())), s.last().0, p);
        }
    }
}

/// Whether a runner list already holds the given path.
fn runners_contain(v: &Vec<Runner>, p: &str) -> (r: bool)
    ensures
        r == runner_paths(runner_views(v@)).contains(p@),
{
    let n = v.len();
    let mut i: usize = 0;
    while i < n
        invariant
            n == v@.len(),
            i <= n,
            forall|k: int| 0 <= k < i ==> (#[trigger] v@[k]).path@ != p@,
        decreases n - i,
    {
        if str_eq(v[i].path.as_str(), p) {
            assert(runner_paths(runner_views(v@))[i as int] == p@);
            return true;
        }
        i += 1;
    }
    assert forall|k: int| 0 <= k < runner_paths(runner_views(v@)).len() implies #[trigger] runner_paths(
        runner_views(v@),
    )[k] != p@ by {
        assert(runner_paths(runner_views(v@))[k] == v@[k].path@);
    }
    false
}

/// Remove later repetitions of a path from a runner list, keeping first
/// occurrences.
fn dedup_runners(v: &Vec<Runner>) -> (r: Vec<Runner>)
    ensures
        runner_views(r@) == spec_dedup_runners(runner_views(v@)),
{
    let n = v.len();
    let mut r: Vec<Runner> = Vec::new();
    let mut i: usize = 0;
    assert(runner_views(v@).take(0) =~= Seq::<(Seq<char>, RunnerType)>::empty());
    while i < n
        invariant
            n == v@.len(),
            i <= n,
            runner_views(v@).len() == n,
            runner_views(r@) == spec_dedup_runners(runner_views(v@).take(i as int)),
        decreases n - i,
    {
        let ghost prefix = runner_views(v@).take(i as int);
        let ghost full = runner_views(v@).take(i + 1);
        assert(full.drop_last() =~= prefix);
        assert(full.last() == runner_views(v@)[i as int]);
        assert(runner_views(v@)[i as int] == (v@[i as int].path@, v@[i as int].runner_type));
        proof {
            lemma_dedup_runners_membership(prefix, v@[i as int].path@);
        }
        if !runners_contain(&r, v[i].path.as_str()) {
            let ghost old_views = runner_views(r@);
            let ghost e = (v@[i as int].path@, v@[i as int].runner_type);
            r.push(Runner { path: v[i].path.clone(), runner_type: v[i].runner_type });
            assert(runner_views(r@) =~= old_views.push(e));
        }
        i += 1;
    }
    assert(runner_views(v@).take(n as int) =~= runner_views(v@));
    r
}

/// The wine runners among scanned candidates: every entry that has a wine
/// binary and classifies by name, first occurrences of a path only. The
/// caller hands over the scanned entries with their binary check already
/// made, their paths resolved to a canonical form where two spellings should
/// count as one.
pub fn find_wine_binaries(candidates: &Vec<WineCandidate>) -> (r: Vec<Runner>)
    ensures
        runner_views(r@) == spec_dedup_runners(spec_wine_runners(candidates@)),
{
    let n = candidates.len();
    let mut kept: Vec<Runner> = Vec::new();
    let mut i: usize = 0;
    assert(candidates@.skip(0) =~= candidates@);
    while i < n
        invariant
            n == candidates@.len(),
            i <= n,
            spec_wine_runners(candidates@) =~= runner_views(kept@) + spec_wine_runners(
                candidates@.skip(i as int),
            ),
        decreases n - i,
    {
        let ghost rest = candidates@.skip(i as int);
        assert(rest.first() == candidates@[i as int]);
        assert(rest.drop_first() =~= candidates@.skip(i + 1));
        let c = &candidates[i];
        if c.has_wine_binary {
            match detect_runner_type(c.path.as_str()) {
                Some(t) => {
                    let ghost old_views = runner_views(kept@);
                    kept.push(Runner { path: c.path.clone(), runner_type: t });
                    assert(runner_views(kept@) =~= old_views.push((candidates@[i as int].path@, t)));
                },
                None => {},
            }
        }
        i += 1;
    }
    assert(candidates@.skip(n as int) =~= Seq::<WineCandidate>::empty());
    assert(runner_views(kept@) =~= spec_wine_runners(candidates@));
    dedup_runners(&kept)
}

/// The candidates a game may run under: the game that needs a plain wine
/// runner gets the wine runners alone; every other game gets the proton
/// runners followed by the wine runners.
pub fn runner_candidates(game_type: GameType, protons: &Vec<Runner>, wines: &Vec<Runner>) -> (r:
    Vec<Runner>)
    ensures
        game_type == GameType::StarRail ==> runner_views(r@) == runner_views(wines@),
        !(game_type == GameType::StarRail) ==> runner_views(r@) == runner_views(protons@)
            + runner_views(wines@),
{
    let mut r: Vec<Runner> = Vec::new();
    if !(game_type == GameType::StarRail) {
        append_runners(&mut r, protons);
    }
    let ghost before = runner_views(r@);
    append_runners(&mut r, wines);
    assert(runner_views(r@) =~= before + runner_views(wines@));
    if game_type == GameType::StarRail {
        assert(runner_views(r@) =~= runner_views(wines@));
    }
    r
}

/// Append copies of the given runners.
fn append_runners(r: &mut Vec<Runner>, more: &Vec<Runner>)
    ensures
        runner_views(final(r)@) == runner_views(old(r)@) + runner_views(more@),
{
    let n = more.len();
    let mut i: usize = 0;
    while i < n
        invariant
            n == more@.len(),
            i <= n,
            runner_views(r@) =~= runner_views(old(r)@) + runner_views(more@.take(i as int)),
        decreases n - i,
    {
        let ghost old_views = runner_views(r@);
        let ghost e = (more@[i as int].path@, more@[i as int].runner_type);
        r.push(Runner { path: more[i].path.clone(), runner_type: more[i].runner_type });
        assert(runner_views(r@) =~= old_views.push(e));
        assert(runner_views(more@.take(i + 1)) =~= runner_views(more@.take(i as int)).push(e));
        i += 1;
    }
    assert(more@.take(n as int) =~= more@);
    assert(runner_views(r@) =~= runner_views(old(r)@) + runner_views(more@));
}

/// The index of the first runner at the given path.
pub open spec fn spec_find_runner(rs: Seq<Runner>, path: Seq<char>) -> Option<int>
    decreases rs.len(),
{
    if rs.len() == 0 {
        None
    } else if rs.first().path@ == path {
        Some(0int)
    } else {
        match spec_find_runner(rs.drop_first(), path) {
            Some(j) => Some(j + 1),
            None => None,
        }
    }
}

/// Where the first `i` runners miss and runner `i` hits, the find lands on
/// `i`.
proof fn lemma_find_runner_hit(rs: Seq<Runner>, path: Seq<char>, i: int)
    requires
        0 <= i < rs.len(),
        forall|k: int| 0 <= k < i ==> (#[trigger] rs[k]).path@ != path,
        rs[i].path@ == path,
    ensures
        spec_find_runner(rs, path) == Some(i),
    decreases i,
{
    if i > 0 {
        lemma_find_runner_hit(rs.drop_first(), path, i - 1);
    }
}

/// Where no runner hits, the find comes up empty.
proof fn lemma_find_runner_miss(rs: Seq<Runner>, path: Seq<char>)
    requires
        forall|k: int| 0 <= k < rs.len() ==> (#[trigger] rs[k]).path@ != path,
    ensures
        spec_find_runner(rs, path) is None,
    decreases rs.len(),
{
    if rs.len() > 0 {
        lemma_find_runner_miss(rs.drop_first(), path);
    }
}

/// The first candidate at the given path, so that a saved runner counts only
/// where it is still among the candidates.
pub fn find_runner(candidates: &Vec<Runner>, path: &str) -> (r: Option<usize>)
    ensures
        r is Some <==> spec_find_runner(candidates@, path@) is Some,
        r matches Some(i) ==> spec_find_runner(candidates@, path@) == Some(i as int) && i
            < candidates@.len(),
{
    let n = candidates.len();
    let mut i: usize = 0;
    while i < n
        invariant
            n == candidates@.len(),
            i <= n,
            forall|k: int| 0 <= k < i ==> (#[trigger] candidates@[k]).path@ != path@,
        decreases n - i,
    {
        if str_eq(candidates[i].path.as_str(), path) {
            proof {
                lemma_find_runner_hit(candidates@, path@, i as int);
            }
            return Some(i);
        }
        i += 1;
    }
    proof {
        lemma_find_runner_miss(candidates@, path@);
    }
    None
}

} // verus!
