//! Expanding a branch type's target patterns against the live branches.
use vstd::prelude::*;
use crate::config::{strs, Strategy, TargetBranch};
use crate::pattern::{pattern_hits, pattern_search};

verus! {

/// A target as a name and a strategy.
pub open spec fn target_view(t: TargetBranch) -> (Seq<char>, Strategy) {
    (t.name@, t.strategy)
}

pub open spec fn targets_view(ts: Seq<TargetBranch>) -> Seq<(Seq<char>, Strategy)> {
    ts.map_values(|t: TargetBranch| target_view(t))
}

/// Some entry of `acc` already names branch `b`.
pub open spec fn has_name(acc: Seq<(Seq<char>, Strategy)>, b: Seq<char>) -> bool {
    exists|k: int| 0 <= k < acc.len() && acc[k].0 == b
}

/// Entry `j` of row `i`, false where the matrix has none.
pub open spec fn hit_at(hits: Seq<Seq<bool>>, i: int, j: int) -> bool {
    0 <= i < hits.len() && 0 <= j < hits[i].len() && hits[i][j]
}

/// `acc` followed by those of the first `n` branches of `bs` that row `i` of
/// `hits` marks and that are not named yet, each with `strategy`.
pub open spec fn gather(
    acc: Seq<(Seq<char>, Strategy)>,
    hits: Seq<Seq<bool>>,
    i: int,
    strategy: Strategy,
    bs: Seq<Seq<char>>,
    n: int,
) -> Seq<(Seq<char>, Strategy)>
    decreases n,
{
    if n <= 0 {
        acc
    } else {
        let prev = gather(acc, hits, i, strategy, bs, n - 1);
        if hit_at(hits, i, n - 1) && !has_name(prev, bs[n - 1]) {
            prev.push((bs[n - 1], strategy))
        } else {
            prev
        }
    }
}

/// The targets that the first `m` specs give on the branches `bs`, where
/// `hits[i][j]` says whether spec `i` matches branch `j`: spec by spec, the
/// marked branches in their order, each branch once, under the first spec
/// that marked it.
pub open spec fn expand_with(
    specs: Seq<(Seq<char>, Strategy)>,
    bs: Seq<Seq<char>>,
    hits: Seq<Seq<bool>>,
    m: int,
) -> Seq<(Seq<char>, Strategy)>
    decreases m,
{
    if m <= 0 {
        seq![]
    } else {
        gather(expand_with(specs, bs, hits, m - 1), hits, m - 1, specs[m - 1].1, bs, bs.len() as int)
    }
}

/// Which spec's pattern matches which branch.
pub open spec fn pattern_matrix(specs: Seq<(Seq<char>, Strategy)>, bs: Seq<Seq<char>>) -> Seq<
    Seq<bool>,
> {
    Seq::new(specs.len(), |i: int| Seq::new(bs.len(), |j: int| pattern_hits(specs[i].0, bs[j])))
}

/// The targets that `specs` give on the branches `bs`, patterns searched
/// anywhere in a branch name.
pub open spec fn expand_targets(specs: Seq<(Seq<char>, Strategy)>, bs: Seq<Seq<char>>) -> Seq<
    (Seq<char>, Strategy),
> {
    expand_with(specs, bs, pattern_matrix(specs, bs), specs.len() as int)
}

pub open spec fn rows_view(hits: Seq<Vec<bool>>) -> Seq<Seq<bool>> {
    hits.map_values(|r: Vec<bool>| r@)
}

fn contains_name(acc: &Vec<TargetBranch>, b: &String) -> (r: bool)
    ensures
        r == has_name(targets_view(acc@), b@),
{
    let mut k: usize = 0;
    while k < acc.len()
        invariant
            k <= acc@.len(),
            forall|c: int| 0 <= c < k ==> acc@[c].name@ != b@,
        decreases acc@.len() - k,
    {
        if acc[k].name == *b {
            assert(targets_view(acc@)[k as int].0 == b@);
            return true;
        }
        k = k + 1;
    }
    assert(!has_name(targets_view(acc@), b@)) by {
        assert forall|c: int| 0 <= c < acc@.len() implies targets_view(acc@)[c].0 != b@ by {
            assert(targets_view(acc@)[c] == target_view(acc@[c]));
        }
    }
    false
}

/// The concrete targets of `targets` among `branches`, where `hits[i][j]`
/// says whether target pattern `i` matches branch `j`.
pub fn select_targets(
    targets: &Vec<TargetBranch>,
    branches: &Vec<String>,
    hits: &Vec<Vec<bool>>,
) -> (r: Vec<TargetBranch>)
    ensures
        targets_view(r@) == expand_with(
            targets_view(targets@),
            strs(branches@),
            rows_view(hits@),
            targets@.len() as int,
        ),
{
    let ghost bs = strs(branches@);
    let ghost specs = targets_view(targets@);
    let ghost hv = rows_view(hits@);
    let mut r: Vec<TargetBranch> = Vec::new();
    let mut i: usize = 0;
    while i < targets.len()
        invariant
            bs == strs(branches@),
            specs == targets_view(targets@),
            hv == rows_view(hits@),
            i <= targets@.len(),
            targets_view(r@) == expand_with(specs, bs, hv, i as int),
        decreases targets@.len() - i,
    {
        let strategy = targets[i].strategy;
        let ghost acc = targets_view(r@);
        let mut j: usize = 0;
        while j < branches.len()
            invariant
                bs == strs(branches@),
                specs == targets_view(targets@),
                hv == rows_view(hits@),
                i < targets@.len(),
                strategy == targets@[i as int].strategy,
                j <= branches@.len(),
                targets_view(r@) == gather(acc, hv, i as int, strategy, bs, j as int),
            decreases branches@.len() - j,
        {
            let hit = i < hits.len() && j < hits[i].len() && hits[i][j];
            assert(hit == hit_at(hv, i as int, j as int));
            assert(bs[j as int] == branches@[j as int]@);
            if hit && !contains_name(&r, &branches[j]) {
                let t = TargetBranch { name: branches[j].clone(), strategy };
                let ghost old_r = r@;
                r.push(t);
                assert(targets_view(r@) =~= targets_view(old_r).push(target_view(t)));
            }
            j = j + 1;
        }
        assert(specs[i as int] == target_view(targets@[i as int]));
        i = i + 1;
    }
    r
}

proof fn lemma_gather_same_row(
    acc: Seq<(Seq<char>, Strategy)>,
    h1: Seq<Seq<bool>>,
    h2: Seq<Seq<bool>>,
    i: int,
    strategy: Strategy,
    bs: Seq<Seq<char>>,
    n: int,
)
    requires
        forall|j: int| 0 <= j < n ==> hit_at(h1, i, j) == hit_at(h2, i, j),
    ensures
        gather(acc, h1, i, strategy, bs, n) == gather(acc, h2, i, strategy, bs, n),
    decreases n,
{
    if n > 0 {
        lemma_gather_same_row(acc, h1, h2, i, strategy, bs, n - 1);
    }
}

proof fn lemma_expand_same_hits(
    specs: Seq<(Seq<char>, Strategy)>,
    bs: Seq<Seq<char>>,
    h1: Seq<Seq<bool>>,
    h2: Seq<Seq<bool>>,
    m: int,
)
    requires
        forall|i: int, j: int| 0 <= i < m && 0 <= j < bs.len() ==> hit_at(h1, i, j) == hit_at(h2, i, j),
    ensures
        expand_with(specs, bs, h1, m) == expand_with(specs, bs, h2, m),
    decreases m,
{
    if m > 0 {
        lemma_expand_same_hits(specs, bs, h1, h2, m - 1);
        lemma_gather_same_row(
            expand_with(specs, bs, h1, m - 1),
            h1,
            h2,
            m - 1,
            specs[m - 1].1,
            bs,
            bs.len() as int,
        );
    }
}

/// The concrete targets of `targets` among `branches`, in order, without
/// repeating a branch: each pattern is searched anywhere in a branch name.
pub fn match_targets(targets: &Vec<TargetBranch>, branches: &Vec<String>) -> (r: Vec<TargetBranch>)
    ensures
        targets_view(r@) == expand_targets(targets_view(targets@), strs(branches@)),
{
    let ghost bs = strs(branches@);
    let ghost specs = targets_view(targets@);
    let mut hits: Vec<Vec<bool>> = Vec::new();
    let mut i: usize = 0;
    while i < targets.len()
        invariant
            bs == strs(branches@),
            specs == targets_view(targets@),
            i <= targets@.len(),
            hits@.len() == i,
            forall|a: int, b: int|
                0 <= a < i && 0 <= b < bs.len() ==> hit_at(rows_view(hits@), a, b) == pattern_hits(
                    specs[a].0,
                    bs[b],
                ),
        decreases targets@.len() - i,
    {
        let mut row: Vec<bool> = Vec::new();
        let mut j: usize = 0;
        assert(specs[i as int].0 == targets@[i as int].name@);
        while j < branches.len()
            invariant
                bs == strs(branches@),
                specs == targets_view(targets@),
                i < targets@.len(),
                j <= branches@.len(),
                row@.len() == j,
                forall|b: int| 0 <= b < j ==> row@[b] == pattern_hits(specs[i as int].0, bs[b]),
                hits@.len() == i,
                forall|a: int, b: int|
                    0 <= a < i && 0 <= b < bs.len() ==> hit_at(rows_view(hits@), a, b)
                        == pattern_hits(specs[a].0, bs[b]),
            decreases branches@.len() - j,
        {
            let hit = pattern_search(targets[i].name.as_str(), branches[j].as_str()).is_some();
            assert(bs[j as int] == branches@[j as int]@);
            row.push(hit);
            j = j + 1;
        }
        let ghost before = hits@;
        let ghost rv = row@;
        assert(rv.len() == bs.len());
        hits.push(row);
        assert forall|a: int, b: int| 0 <= a < i + 1 && 0 <= b < bs.len() implies hit_at(
            rows_view(hits@),
            a,
            b,
        ) == pattern_hits(specs[a].0, bs[b]) by {
            assert(rows_view(hits@).len() == i + 1);
            if a < i {
                assert(rows_view(hits@)[a] == rows_view(before)[a]);
                assert(hit_at(rows_view(before), a, b) == pattern_hits(specs[a].0, bs[b]));
            } else {
                assert(rows_view(hits@)[a] == rv);
                assert(rv[b] == pattern_hits(specs[a].0, bs[b]));
            }
        }
        i = i + 1;
    }
    let r = select_targets(targets, branches, &hits);
    proof {
        lemma_expand_same_hits(
            specs,
            bs,
            rows_view(hits@),
            pattern_matrix(specs, bs),
            specs.len() as int,
        );
    }
    r
}

} // verus!
