//! The Python executable, and the paths that Python searches beyond its own.
use std::path::PathBuf;
use vstd::prelude::*;
use vstd::std_specs::cmp::PartialEqSpec;

verus! {

/// A path of `std`.
#[verifier::external_type_specification]
#[verifier::external_body]
pub struct ExPathBuf(std::path::PathBuf);

/// `==` on `std::path::PathBuf`, which is `Eq`: its result is a function of the two paths,
/// the same either way round, and a path is the same as itself; two paths that are the
/// same are the same as the same paths, and two paths that are not have no third one that
/// is the same as both. Paths can be the same though they are written differently; when
/// that is so is left open.
#[verifier::external_body]
fn same_path(left: &PathBuf, right: &PathBuf) -> (same: bool)
    ensures
        same == left.eq_spec(right),
        same == right.eq_spec(left),
        *left == *right ==> same,
        same ==> forall|other: PathBuf| #[trigger]
            left.eq_spec(&other) == #[trigger] right.eq_spec(&other),
        !same ==> forall|other: PathBuf|
            !(#[trigger] left.eq_spec(&other) && #[trigger] right.eq_spec(&other)),
{
    left == right
}

/// `clone` on `std::path::PathBuf`: the copy is the path.
#[verifier::external_body]
fn copied_path(path: &PathBuf) -> (copy: PathBuf)
    ensures
        copy == *path,
{
    path.clone()
}

/// Whether one of `paths` is the same as `path`.
pub open spec fn has_path(paths: Seq<PathBuf>, path: PathBuf) -> bool {
    exists|i: int| 0 <= i < paths.len() && (#[trigger] paths[i]).eq_spec(&path)
}

/// No two of `paths` are the same.
pub open spec fn distinct(paths: Seq<PathBuf>) -> bool {
    forall|i: int, j: int|
        0 <= i < paths.len() && 0 <= j < paths.len() && i != j ==> !(
        #[trigger] paths[i]).eq_spec(#[trigger] &paths[j])
}

/// Those of `paths` that are not the same as `path`, in their order.
pub open spec fn without_path(paths: Seq<PathBuf>, path: PathBuf) -> Seq<PathBuf> {
    paths.filter(|existing: PathBuf| !existing.eq_spec(&path))
}

/// `paths` with `path` behind them, unless one of them is the same.
pub open spec fn with_path(paths: Seq<PathBuf>, path: PathBuf) -> Seq<PathBuf> {
    if has_path(paths, path) {
        paths
    } else {
        paths.push(path)
    }
}

/// What `before` becomes when `path` is added: it is put behind them, unless one of them
/// is the same; what is the same as `path` is then there, and of everything else just what
/// was there before.
pub open spec fn adds(before: Seq<PathBuf>, after: Seq<PathBuf>, path: PathBuf) -> bool {
    &&& after == with_path(before, path)
    &&& path.eq_spec(&path)
    &&& forall|other: PathBuf|
        has_path(after, other) <==> has_path(before, other) || path.eq_spec(&other)
    &&& distinct(before) ==> distinct(after)
}

/// What `before` becomes when `path` is removed: what is the same as `path` is not there
/// any more, and of everything else just what was there before.
pub open spec fn removes(before: Seq<PathBuf>, after: Seq<PathBuf>, path: PathBuf) -> bool {
    &&& after == without_path(before, path)
    &&& path.eq_spec(&path)
    &&& forall|other: PathBuf|
        has_path(after, other) <==> has_path(before, other) && !path.eq_spec(&other)
    &&& distinct(before) ==> distinct(after)
}

/// Puts `path` behind `paths`, unless one of them is the same.
pub fn add_python_path(paths: &mut Vec<PathBuf>, path: PathBuf)
    ensures
        adds(old(paths)@, final(paths)@, path),
{
    let ghost before = paths@;
    // A path is the same as itself.
    let itself = same_path(&path, &path);
    assert(itself);
    let mut at: usize = 0;
    while at < paths.len()
        invariant
            at <= paths@.len(),
            before == paths@,
            before == old(paths)@,
            path.eq_spec(&path),
            forall|i: int| 0 <= i < at ==> !(#[trigger] before[i]).eq_spec(&path),
            forall|i: int| 0 <= i < at ==> !path.eq_spec(#[trigger] &before[i]),
        decreases paths@.len() - at,
    {
        if same_path(&paths[at], &path) {
            proof {
                assert(before[at as int].eq_spec(&path));
                assert forall|other: PathBuf| has_path(before, other) <==> has_path(before, other)
                    || path.eq_spec(&other) by {
                    if path.eq_spec(&other) {
                        assert(before[at as int].eq_spec(&other));
                    }
                }
            }
            return;
        }
        at = at + 1;
    }
    assert(!has_path(before, path));
    paths.push(path);
    proof {
        let after = paths@;
        assert(after == before.push(path));
        assert forall|other: PathBuf| has_path(after, other) <==> has_path(before, other)
            || path.eq_spec(&other) by {
            if has_path(before, other) {
                let i = choose|i: int|
                    0 <= i < before.len() && (#[trigger] before[i]).eq_spec(&other);
                assert(after[i] == before[i]);
            }
            if path.eq_spec(&other) {
                assert(after[before.len() as int] == path);
            }
            if has_path(after, other) {
                let i = choose|i: int|
                    0 <= i < after.len() && (#[trigger] after[i]).eq_spec(&other);
                if i < before.len() {
                    assert(before[i] == after[i]);
                }
            }
        }
    }
}

/// Takes those that are the same as `path` out of `paths`.
pub fn remove_python_path(paths: &mut Vec<PathBuf>, path: &PathBuf)
    ensures
        removes(old(paths)@, final(paths)@, *path),
{
    // A path is the same as itself.
    let itself = same_path(path, path);
    assert(itself);
    let mut kept: Vec<PathBuf> = Vec::new();
    let ghost keeps = |existing: PathBuf| !existing.eq_spec(path);
    let ghost all = paths@;
    let mut at: usize = 0;
    assert(all.take(0) =~= Seq::empty());
    proof {
        reveal(Seq::filter);
    }
    while at < paths.len()
        invariant
            at <= all.len(),
            all == paths@,
            keeps == (|existing: PathBuf| !existing.eq_spec(path)),
            kept@ == all.take(at as int).filter(keeps),
            forall|i: int, other: PathBuf|
                0 <= i < at && #[trigger] all[i].eq_spec(&other) ==> all[i].eq_spec(path)
                    == path.eq_spec(&other),
        decreases all.len() - at,
    {
        let same = same_path(&paths[at], path);
        if !same {
            kept.push(copied_path(&paths[at]));
        }
        proof {
            reveal(Seq::filter);
            let longer = all.take(at + 1);
            assert(longer.drop_last() =~= all.take(at as int));
            assert(longer.last() == all[at as int]);
            assert forall|i: int, other: PathBuf|
                0 <= i < at + 1 && #[trigger] all[i].eq_spec(&other) implies all[i].eq_spec(path)
                == path.eq_spec(&other) by {
                if i == at {
                    assert(all[i].eq_spec(&other) || !path.eq_spec(&other) || !same);
                }
            }
        }
        at = at + 1;
    }
    assert(all.take(at as int) =~= all);
    *paths = kept;
    proof {
        let after = paths@;
        assert forall|other: PathBuf| has_path(after, other) <==> has_path(all, other)
            && !path.eq_spec(&other) by {
            if has_path(after, other) {
                let i = choose|i: int|
                    0 <= i < after.len() && (#[trigger] after[i]).eq_spec(&other);
                all.lemma_filter_pred(keeps, i);
                assert(after.contains(after[i]));
                all.lemma_filter_contains_rev(keeps, after[i]);
                let j = all.index_of(after[i]);
                assert(all[j] == after[i]);
                assert(all[j].eq_spec(&other));
            }
            if has_path(all, other) && !path.eq_spec(&other) {
                let j = choose|j: int| 0 <= j < all.len() && (#[trigger] all[j]).eq_spec(&other);
                assert(keeps(all[j]));
                all.lemma_filter_contains(keeps, j);
                let i = after.index_of(all[j]);
                assert(after[i] == all[j]);
            }
        }
        if distinct(all) {
            lemma_kept_paths_stay_distinct(all, *path);
        }
    }
}

/// The paths, in the order in which they were added.
pub fn extra_python_paths(paths: &Vec<PathBuf>) -> (copies: Vec<PathBuf>)
    ensures
        copies@ == paths@,
{
    let mut copies: Vec<PathBuf> = Vec::new();
    let mut at: usize = 0;
    while at < paths.len()
        invariant
            at <= paths@.len(),
            copies@ == paths@.take(at as int),
        decreases paths@.len() - at,
    {
        copies.push(copied_path(&paths[at]));
        assert(paths@.take(at + 1) =~= paths@.take(at as int).push(paths@[at as int]));
        at = at + 1;
    }
    assert(paths@.take(at as int) =~= paths@);
    copies
}

/// How the Python executable is looked for.
#[derive(Debug)]
pub enum PythonSearch {
    /// Take the executable that was configured.
    Configured,
    /// Try whether the executable of this name can be run.
    Probe(String),
    /// Take the executable of this name.
    Found(String),
}

/// What is to be done to find the Python executable, where `probed` says of the names
/// that were tried so far whether they could be run: one that was configured goes
/// first, then `python`, then `python3`; where none can be run, it is `python`.
pub fn find_python(configured: bool, probed: &Vec<bool>) -> (search: PythonSearch)
    ensures
        match search {
            PythonSearch::Configured => configured,
            PythonSearch::Probe(name) => {
                &&& !configured
                &&& !probed@.contains(true)
                &&& probed@.len() < 2
                &&& name@ == if probed@.len() == 0 {
                    "python"@
                } else {
                    "python3"@
                }
            },
            PythonSearch::Found(name) => {
                &&& !configured
                &&& name@ == if probed@.len() >= 2 && !probed@[0] && probed@[1] {
                    "python3"@
                } else {
                    "python"@
                }
                &&& probed@.len() >= 2 || probed@.contains(true)
            },
        },
{
    if configured {
        return PythonSearch::Configured;
    }
    let n: usize = probed.len();
    if n == 0 {
        return PythonSearch::Probe("python".to_owned());
    }
    if probed[0] {
        assert(probed@[0]);
        return PythonSearch::Found("python".to_owned());
    }
    if n == 1 {
        return PythonSearch::Probe("python3".to_owned());
    }
    if probed[1] {
        return PythonSearch::Found("python3".to_owned());
    }
    PythonSearch::Found("python".to_owned())
}

proof fn lemma_kept_paths_stay_distinct(paths: Seq<PathBuf>, path: PathBuf)
    requires
        distinct(paths),
    ensures
        distinct(without_path(paths, path)),
    decreases paths.len(),
{
    reveal(Seq::filter);
    if paths.len() > 0 {
        let keeps = |existing: PathBuf| !existing.eq_spec(&path);
        let shorter = paths.drop_last();
        assert forall|i: int, j: int|
            0 <= i < shorter.len() && 0 <= j < shorter.len() && i != j implies !(
        #[trigger] shorter[i]).eq_spec(#[trigger] &shorter[j]) by {
            assert(shorter[i] == paths[i] && shorter[j] == paths[j]);
        }
        lemma_kept_paths_stay_distinct(shorter, path);
        let kept = shorter.filter(keeps);
        assert forall|i: int| 0 <= i < kept.len() implies !(#[trigger] kept[i]).eq_spec(
            &paths.last(),
        ) && !paths.last().eq_spec(&kept[i]) by {
            assert(kept.contains(kept[i]));
            shorter.lemma_filter_contains_rev(keeps, kept[i]);
            let j = shorter.index_of(kept[i]);
            assert(paths[j] == kept[i]);
            assert(paths[paths.len() - 1] == paths.last());
        }
    }
}

/// A path that was added is among the paths, and every path that was there still is, in
/// its place.
pub proof fn law_added_path_is_there(
    before: Seq<PathBuf>,
    after: Seq<PathBuf>,
    path: PathBuf,
    other: PathBuf,
)
    requires
        adds(before, after, path),
    ensures
        has_path(after, path),
        has_path(before, other) ==> has_path(after, other),
        before.is_prefix_of(after),
{
    assert(before.is_prefix_of(after)) by {
        assert(before =~= after.subrange(0, before.len() as int));
    }
}

/// A second add of the same path changes nothing.
pub proof fn law_second_add_changes_nothing(
    before: Seq<PathBuf>,
    once: Seq<PathBuf>,
    twice: Seq<PathBuf>,
    path: PathBuf,
)
    requires
        adds(before, once, path),
        adds(once, twice, path),
    ensures
        twice == once,
{
    assert(has_path(once, path));
}

/// A path that was removed is not among the paths any more.
pub proof fn law_removed_path_is_gone(before: Seq<PathBuf>, after: Seq<PathBuf>, path: PathBuf)
    requires
        removes(before, after, path),
    ensures
        !has_path(after, path),
{
}

/// To remove a path undoes its add, where it was not there before.
pub proof fn law_remove_undoes_add(
    before: Seq<PathBuf>,
    added: Seq<PathBuf>,
    after: Seq<PathBuf>,
    path: PathBuf,
)
    requires
        adds(before, added, path),
        removes(added, after, path),
        !has_path(before, path),
    ensures
        after == before,
{
    reveal(Seq::filter);
    let keeps = |existing: PathBuf| !existing.eq_spec(&path);
    assert(added.drop_last() =~= before);
    assert(added.last() == path);
    assert(added.filter(keeps) == before.filter(keeps));
    lemma_nothing_to_remove(before, path);
}

proof fn lemma_nothing_to_remove(paths: Seq<PathBuf>, path: PathBuf)
    requires
        !has_path(paths, path),
    ensures
        without_path(paths, path) == paths,
    decreases paths.len(),
{
    reveal(Seq::filter);
    if paths.len() > 0 {
        let shorter = paths.drop_last();
        assert(!has_path(shorter, path)) by {
            if has_path(shorter, path) {
                let i = choose|i: int|
                    0 <= i < shorter.len() && (#[trigger] shorter[i]).eq_spec(&path);
                assert(paths[i] == shorter[i]);
            }
        }
        lemma_nothing_to_remove(shorter, path);
        assert(!paths[paths.len() - 1].eq_spec(&path));
        assert(paths =~= shorter.push(paths.last()));
    } else {
        assert(without_path(paths, path) =~= paths);
    }
}

/// A change of the paths.
pub enum PathStep {
    Add(PathBuf),
    Remove(PathBuf),
}

/// Whether `path` was added after it was last removed, or never removed, by `steps`;
/// what is the same as it counts as it.
pub open spec fn added_last(steps: Seq<PathStep>, path: PathBuf) -> bool
    decreases steps.len(),
{
    if steps.len() == 0 {
        false
    } else {
        match steps.last() {
            PathStep::Add(added) => added.eq_spec(&path) || added_last(steps.drop_last(), path),
            PathStep::Remove(removed) => !removed.eq_spec(&path) && added_last(
                steps.drop_last(),
                path,
            ),
        }
    }
}

/// Whether the paths were none at first and became `states` one after the other by
/// `steps`.
pub open spec fn is_history(states: Seq<Seq<PathBuf>>, steps: Seq<PathStep>) -> bool {
    &&& states.len() == steps.len() + 1
    &&& states[0] == Seq::<PathBuf>::empty()
    &&& forall|i: int|
        0 <= i < steps.len() ==> match #[trigger] steps[i] {
            PathStep::Add(path) => adds(states[i], states[i + 1], path),
            PathStep::Remove(path) => removes(states[i], states[i + 1], path),
        }
}

/// Whatever was added and removed, no two of the paths are the same, and a path is among
/// them exactly if its last add came after its last remove.
pub proof fn law_paths_are_those_added_last(
    states: Seq<Seq<PathBuf>>,
    steps: Seq<PathStep>,
    path: PathBuf,
)
    requires
        is_history(states, steps),
    ensures
        distinct(states.last()),
        has_path(states.last(), path) <==> added_last(steps, path),
    decreases steps.len(),
{
    if steps.len() > 0 {
        let shorter = steps.drop_last();
        let earlier = states.drop_last();
        assert forall|i: int| 0 <= i < shorter.len() implies match #[trigger] shorter[i] {
            PathStep::Add(path) => adds(earlier[i], earlier[i + 1], path),
            PathStep::Remove(path) => removes(earlier[i], earlier[i + 1], path),
        } by {
            assert(shorter[i] == steps[i]);
        }
        law_paths_are_those_added_last(earlier, shorter, path);
        let last: int = steps.len() - 1;
        assert(steps[last] == steps.last());
        assert(earlier.last() == states[last]);
        assert(states.last() == states[last + 1]);
    }
}

/// A path is among paths exactly if it is the same as one of them, wherever that stands.
pub proof fn law_path_is_there_if_one_is_the_same(
    first: Seq<PathBuf>,
    second: Seq<PathBuf>,
    one: PathBuf,
    path: PathBuf,
)
    ensures
        !has_path(Seq::<PathBuf>::empty(), path),
        has_path(seq![one], path) <==> one.eq_spec(&path),
        has_path(first + second, path) <==> has_path(first, path) || has_path(second, path),
{
    let both = first + second;
    assert(seq![one][0] == one);
    if has_path(first, path) {
        let i = choose|i: int| 0 <= i < first.len() && (#[trigger] first[i]).eq_spec(&path);
        assert(both[i] == first[i]);
    }
    if has_path(second, path) {
        let i = choose|i: int| 0 <= i < second.len() && (#[trigger] second[i]).eq_spec(&path);
        assert(both[first.len() + i] == second[i]);
    }
    if has_path(both, path) {
        let i = choose|i: int| 0 <= i < both.len() && (#[trigger] both[i]).eq_spec(&path);
        if i < first.len() {
            assert(first[i] == both[i]);
        } else {
            assert(second[i - first.len()] == both[i]);
        }
    }
}

/// A new path is put behind all others; one that is there already changes nothing.
pub proof fn law_new_path_comes_last(before: Seq<PathBuf>, after: Seq<PathBuf>, path: PathBuf)
    requires
        adds(before, after, path),
    ensures
        !has_path(before, path) ==> after == before + seq![path],
        has_path(before, path) ==> after == before,
{
    assert(before.push(path) =~= before + seq![path]);
}

/// Paths that are not removed keep their order: what is left of paths is what is left of
/// the first ones and then what is left of the others, and a single path is left exactly
/// if it is not the same as the removed one.
pub proof fn law_kept_paths_keep_their_order(
    first: Seq<PathBuf>,
    second: Seq<PathBuf>,
    one: PathBuf,
    path: PathBuf,
)
    ensures
        without_path(first + second, path) == without_path(first, path) + without_path(
            second,
            path,
        ),
        without_path(seq![one], path) == if one.eq_spec(&path) {
            Seq::<PathBuf>::empty()
        } else {
            seq![one]
        },
        without_path(Seq::<PathBuf>::empty(), path) == Seq::<PathBuf>::empty(),
{
    let keeps = |existing: PathBuf| !existing.eq_spec(&path);
    Seq::filter_distributes_over_add(first, second, keeps);
    reveal(Seq::filter);
    let single = seq![one];
    assert(single.drop_last() =~= Seq::<PathBuf>::empty());
    assert(single.last() == one);
    assert(single.drop_last().filter(keeps) =~= Seq::<PathBuf>::empty());
    assert(Seq::<PathBuf>::empty().push(one) =~= single);
}

} // verus!
