//! Reconciling local and remote branch sets.
use vstd::prelude::*;
use vstd::string::*;
use crate::config::{contains_string, strs};

verus! {

/// The side whose branches are brought in line with the other side.
#[derive(Clone, Copy, Debug, PartialEq, Eq, Structural)]
pub enum SyncTarget {
    Local,
    Remote,
}

/// Override also deletes what the source side lacks; Increment only creates.
#[derive(Clone, Copy, Debug, PartialEq, Eq, Structural)]
pub enum SyncStrategy {
    Override,
    Increment,
}

#[derive(Debug, PartialEq, Eq, Structural)]
pub enum SyncError {
    /// No remote repository is configured.
    NoRemote,
    /// The answer does not name one of the remotes.
    InvalidSelection,
}

/// What reconciliation computes: whether the sides already agree, and the
/// branches to delete from and to create in the target side, in order.
#[derive(Debug)]
pub struct SyncPlan {
    pub in_sync: bool,
    pub to_delete: Vec<String>,
    pub to_create: Vec<String>,
}

/// One change to a branch set.
#[derive(Debug)]
pub enum SyncOp {
    DeleteLocalBranch { branch: String },
    DeleteRemoteBranch { repo: String, branch: String },
    CreateLocalBranch { source: String, name: String },
    CreateRemoteBranch { repo: String, local: String, remote: String },
}

pub enum SyncOpV {
    DeleteLocalBranch(Seq<char>),
    DeleteRemoteBranch(Seq<char>, Seq<char>),
    CreateLocalBranch(Seq<char>, Seq<char>),
    CreateRemoteBranch(Seq<char>, Seq<char>, Seq<char>),
}

impl View for SyncOp {
    type V = SyncOpV;

    open spec fn view(&self) -> SyncOpV {
        match self {
            SyncOp::DeleteLocalBranch { branch } => SyncOpV::DeleteLocalBranch(branch@),
            SyncOp::DeleteRemoteBranch { repo, branch } => SyncOpV::DeleteRemoteBranch(
                repo@,
                branch@,
            ),
            SyncOp::CreateLocalBranch { source, name } => SyncOpV::CreateLocalBranch(
                source@,
                name@,
            ),
            SyncOp::CreateRemoteBranch { repo, local, remote } => SyncOpV::CreateRemoteBranch(
                repo@,
                local@,
                remote@,
            ),
        }
    }
}

pub open spec fn source_side(target: SyncTarget, local: Seq<Seq<char>>, remote: Seq<Seq<char>>) -> Seq<
    Seq<char>,
> {
    match target {
        SyncTarget::Local => remote,
        SyncTarget::Remote => local,
    }
}

pub open spec fn target_side(target: SyncTarget, local: Seq<Seq<char>>, remote: Seq<Seq<char>>) -> Seq<
    Seq<char>,
> {
    match target {
        SyncTarget::Local => local,
        SyncTarget::Remote => remote,
    }
}

/// The two lists have one size and every source branch is a target branch.
pub open spec fn same_branches(src: Seq<Seq<char>>, tgt: Seq<Seq<char>>) -> bool {
    src.len() == tgt.len() && forall|i: int| 0 <= i < src.len() ==> tgt.contains(#[trigger] src[i])
}

/// The branches of `xs`, in order, that `ys` lacks.
pub open spec fn missing_from(xs: Seq<Seq<char>>, ys: Seq<Seq<char>>) -> Seq<Seq<char>>
    decreases xs.len(),
{
    if xs.len() == 0 {
        seq![]
    } else {
        let rest = missing_from(xs.drop_last(), ys);
        if ys.contains(xs.last()) {
            rest
        } else {
            rest.push(xs.last())
        }
    }
}

pub proof fn lemma_missing_from(xs: Seq<Seq<char>>, ys: Seq<Seq<char>>, x: Seq<char>)
    ensures
        missing_from(xs, ys).contains(x) <==> xs.contains(x) && !ys.contains(x),
    decreases xs.len(),
{
    if xs.len() > 0 {
        lemma_missing_from(xs.drop_last(), ys, x);
        let rest = missing_from(xs.drop_last(), ys);
        if xs.contains(x) && x != xs.last() {
            let k = choose|k: int| 0 <= k < xs.len() && xs[k] == x;
            assert(xs.drop_last()[k] == x);
        }
        if xs.drop_last().contains(x) {
            let k = choose|k: int| 0 <= k < xs.drop_last().len() && xs.drop_last()[k] == x;
            assert(xs[k] == x);
        }
        if !ys.contains(xs.last()) {
            assert(rest.push(xs.last()).last() == xs.last());
            if rest.push(xs.last()).contains(x) && x != xs.last() {
                let k = choose|k: int| 0 <= k < rest.push(xs.last()).len() && rest.push(xs.last())[k] == x;
                assert(rest[k] == x);
            }
            if rest.contains(x) {
                let k = choose|k: int| 0 <= k < rest.len() && rest[k] == x;
                assert(rest.push(xs.last())[k] == x);
            }
        }
    }
}

pub open spec fn plan_in_sync(target: SyncTarget, local: Seq<Seq<char>>, remote: Seq<Seq<char>>) -> bool {
    same_branches(source_side(target, local, remote), target_side(target, local, remote))
}

/// The branches that a sync deletes from the target side.
pub open spec fn plan_deletes(
    target: SyncTarget,
    strategy: SyncStrategy,
    local: Seq<Seq<char>>,
    remote: Seq<Seq<char>>,
) -> Seq<Seq<char>> {
    if plan_in_sync(target, local, remote) || strategy == SyncStrategy::Increment {
        seq![]
    } else {
        missing_from(target_side(target, local, remote), source_side(target, local, remote))
    }
}

/// The branches that a sync creates in the target side.
pub open spec fn plan_creates(target: SyncTarget, local: Seq<Seq<char>>, remote: Seq<Seq<char>>) -> Seq<
    Seq<char>,
> {
    if plan_in_sync(target, local, remote) {
        seq![]
    } else {
        missing_from(source_side(target, local, remote), target_side(target, local, remote))
    }
}

fn missing_branches(xs: &Vec<String>, ys: &Vec<String>) -> (r: Vec<String>)
    ensures
        strs(r@) == missing_from(strs(xs@), strs(ys@)),
{
    let mut r: Vec<String> = Vec::new();
    let mut i: usize = 0;
    while i < xs.len()
        invariant
            i <= xs@.len(),
            strs(r@) == missing_from(strs(xs@.subrange(0, i as int)), strs(ys@)),
        decreases xs@.len() - i,
    {
        let ghost sub = strs(xs@.subrange(0, i + 1));
        assert(sub.drop_last() =~= strs(xs@.subrange(0, i as int)));
        assert(sub.last() == xs@[i as int]@);
        if !contains_string(ys, &xs[i]) {
            let ghost before = r@;
            r.push(xs[i].clone());
            assert(strs(r@) =~= strs(before).push(xs@[i as int]@));
        }
        i = i + 1;
    }
    assert(xs@.subrange(0, xs@.len() as int) =~= xs@);
    r
}

fn same_branch_lists(src: &Vec<String>, tgt: &Vec<String>) -> (r: bool)
    ensures
        r == same_branches(strs(src@), strs(tgt@)),
{
    if src.len() != tgt.len() {
        return false;
    }
    let mut i: usize = 0;
    while i < src.len()
        invariant
            i <= src@.len(),
            forall|k: int| 0 <= k < i ==> strs(tgt@).contains(#[trigger] strs(src@)[k]),
        decreases src@.len() - i,
    {
        if !contains_string(tgt, &src[i]) {
            assert(!strs(tgt@).contains(strs(src@)[i as int]));
            return false;
        }
        i = i + 1;
    }
    true
}

/// What a sync towards `target` with `strategy` changes, given the local and
/// the remote branches.
pub fn plan_sync(
    target: SyncTarget,
    strategy: SyncStrategy,
    local: &Vec<String>,
    remote: &Vec<String>,
) -> (r: SyncPlan)
    ensures
        r.in_sync == plan_in_sync(target, strs(local@), strs(remote@)),
        strs(r.to_delete@) == plan_deletes(target, strategy, strs(local@), strs(remote@)),
        strs(r.to_create@) == plan_creates(target, strs(local@), strs(remote@)),
{
    let (src, tgt) = match target {
        SyncTarget::Local => (remote, local),
        SyncTarget::Remote => (local, remote),
    };
    if same_branch_lists(src, tgt) {
        return SyncPlan { in_sync: true, to_delete: Vec::new(), to_create: Vec::new() };
    }
    let to_delete = match strategy {
        SyncStrategy::Override => missing_branches(tgt, src),
        SyncStrategy::Increment => Vec::new(),
    };
    assert(strategy == SyncStrategy::Increment ==> strs(to_delete@) =~= seq![]);
    let to_create = missing_branches(src, tgt);
    SyncPlan { in_sync: false, to_delete, to_create }
}

pub open spec fn delete_op(target: SyncTarget, repo: Seq<char>, b: Seq<char>) -> SyncOpV {
    match target {
        SyncTarget::Local => SyncOpV::DeleteLocalBranch(b),
        SyncTarget::Remote => SyncOpV::DeleteRemoteBranch(repo, b),
    }
}

/// Creating `b` locally starts it from the remote-tracking branch `repo/b`;
/// creating it remotely pushes the local `b` to the remote `b`.
pub open spec fn create_op(target: SyncTarget, repo: Seq<char>, b: Seq<char>) -> SyncOpV {
    match target {
        SyncTarget::Local => SyncOpV::CreateLocalBranch(repo + "/"@ + b, b),
        SyncTarget::Remote => SyncOpV::CreateRemoteBranch(repo, b, b),
    }
}

/// Every deletion, in order, then every creation, in order.
pub open spec fn sync_ops(
    target: SyncTarget,
    repo: Seq<char>,
    deletes: Seq<Seq<char>>,
    creates: Seq<Seq<char>>,
) -> Seq<SyncOpV> {
    deletes.map_values(|b: Seq<char>| delete_op(target, repo, b)) + creates.map_values(
        |b: Seq<char>| create_op(target, repo, b),
    )
}

pub open spec fn ops_view(ops: Seq<SyncOp>) -> Seq<SyncOpV> {
    ops.map_values(|o: SyncOp| o@)
}

/// The changes, in the order to apply them, that bring the target side in
/// line with the source side through remote `repo`: none when the sides
/// agree; deletions, under Override, before creations.
pub fn sync_branches(
    repo: &str,
    target: SyncTarget,
    strategy: SyncStrategy,
    local: &Vec<String>,
    remote: &Vec<String>,
) -> (r: Vec<SyncOp>)
    ensures
        ops_view(r@) == sync_ops(
            target,
            repo@,
            plan_deletes(target, strategy, strs(local@), strs(remote@)),
            plan_creates(target, strs(local@), strs(remote@)),
        ),
{
    let plan = plan_sync(target, strategy, local, remote);
    let ghost dels = strs(plan.to_delete@);
    let ghost crs = strs(plan.to_create@);
    let mut r: Vec<SyncOp> = Vec::new();
    let mut i: usize = 0;
    while i < plan.to_delete.len()
        invariant
            dels == strs(plan.to_delete@),
            i <= dels.len(),
            ops_view(r@) == dels.subrange(0, i as int).map_values(
                |b: Seq<char>| delete_op(target, repo@, b),
            ),
        decreases dels.len() - i,
    {
        let b = plan.to_delete[i].clone();
        let op = match target {
            SyncTarget::Local => SyncOp::DeleteLocalBranch { branch: b },
            SyncTarget::Remote => SyncOp::DeleteRemoteBranch { repo: String::from_str(repo), branch: b },
        };
        let ghost before = r@;
        r.push(op);
        assert(ops_view(r@) =~= ops_view(before).push(op@));
        assert(dels.subrange(0, i + 1).map_values(|b: Seq<char>| delete_op(target, repo@, b))
            =~= dels.subrange(0, i as int).map_values(|b: Seq<char>| delete_op(target, repo@, b)).push(
            delete_op(target, repo@, dels[i as int]),
        ));
        i = i + 1;
    }
    let ghost deleted = ops_view(r@);
    assert(dels.subrange(0, dels.len() as int) =~= dels);
    let mut j: usize = 0;
    while j < plan.to_create.len()
        invariant
            crs == strs(plan.to_create@),
            j <= crs.len(),
            deleted == dels.map_values(|b: Seq<char>| delete_op(target, repo@, b)),
            ops_view(r@) == deleted + crs.subrange(0, j as int).map_values(
                |b: Seq<char>| create_op(target, repo@, b),
            ),
        decreases crs.len() - j,
    {
        let b = &plan.to_create[j];
        let op = match target {
            SyncTarget::Local => {
                let mut source = String::from_str(repo);
                source.append("/");
                source.append(b.as_str());
                SyncOp::CreateLocalBranch { source, name: b.clone() }
            },
            SyncTarget::Remote => SyncOp::CreateRemoteBranch {
                repo: String::from_str(repo),
                local: b.clone(),
                remote: b.clone(),
            },
        };
        let ghost before = r@;
        r.push(op);
        assert(ops_view(r@) =~= ops_view(before).push(op@));
        assert(crs.subrange(0, j + 1).map_values(|b: Seq<char>| create_op(target, repo@, b))
            =~= crs.subrange(0, j as int).map_values(|b: Seq<char>| create_op(target, repo@, b)).push(
            create_op(target, repo@, crs[j as int]),
        ));
        j = j + 1;
    }
    assert(crs.subrange(0, crs.len() as int) =~= crs);
    r
}

/// The position of the next change to apply among `n_ops`, given whether
/// each change applied so far succeeded: changes are applied in order, and
/// none after one that failed.
pub fn next_sync_op(n_ops: usize, outcomes: &Vec<bool>) -> (r: Option<usize>)
    ensures
        r is Some <==> outcomes@.len() < n_ops && forall|k: int|
            0 <= k < outcomes@.len() ==> #[trigger] outcomes@[k],
        r matches Some(i) ==> i == outcomes@.len(),
{
    let mut k: usize = 0;
    while k < outcomes.len()
        invariant
            k <= outcomes@.len(),
            forall|j: int| 0 <= j < k ==> #[trigger] outcomes@[j],
        decreases outcomes@.len() - k,
    {
        if !outcomes[k] {
            return None;
        }
        k = k + 1;
    }
    if outcomes.len() < n_ops {
        Some(outcomes.len())
    } else {
        None
    }
}

/// Reconciliation aligns the sides. When they differ, a branch ends up in
/// the target side (kept there or created) under Override exactly when the
/// source side has it; under Increment every source branch ends up there and
/// no target branch is removed. No branch is both deleted and created.
pub proof fn sync_aligns(
    target: SyncTarget,
    strategy: SyncStrategy,
    local: Seq<Seq<char>>,
    remote: Seq<Seq<char>>,
    x: Seq<char>,
)
    requires
        !plan_in_sync(target, local, remote),
    ensures
        ({
            let src = source_side(target, local, remote);
            let tgt = target_side(target, local, remote);
            let kept = tgt.contains(x) && !plan_deletes(target, strategy, local, remote).contains(x);
            let ends_in = kept || plan_creates(target, local, remote).contains(x);
            &&& strategy == SyncStrategy::Override ==> (ends_in <==> src.contains(x))
            &&& strategy == SyncStrategy::Increment ==> (src.contains(x) ==> ends_in) && (
            tgt.contains(x) ==> kept)
            &&& plan_deletes(target, strategy, local, remote).contains(x) ==> !plan_creates(
                target,
                local,
                remote,
            ).contains(x)
        }),
{
    let src = source_side(target, local, remote);
    let tgt = target_side(target, local, remote);
    lemma_missing_from(src, tgt, x);
    lemma_missing_from(tgt, src, x);
}

/// The characters that `str::trim` takes off: those for which
/// `char::is_whitespace` holds, the Unicode `White_Space` characters.
pub open spec fn is_blank(c: char) -> bool {
    ('\u{9}' <= c && c <= '\u{d}') || c == ' ' || c == '\u{85}' || c == '\u{a0}' || c
        == '\u{1680}' || ('\u{2000}' <= c && c <= '\u{200a}') || c == '\u{2028}' || c
        == '\u{2029}' || c == '\u{202f}' || c == '\u{205f}' || c == '\u{3000}'
}

/// Whether `c` is a blank.
pub fn blank(c: char) -> (r: bool)
    ensures
        r == is_blank(c),
{
    ('\u{9}' <= c && c <= '\u{d}') || c == ' ' || c == '\u{85}' || c == '\u{a0}' || c
        == '\u{1680}' || ('\u{2000}' <= c && c <= '\u{200a}') || c == '\u{2028}' || c
        == '\u{2029}' || c == '\u{202f}' || c == '\u{205f}' || c == '\u{3000}'
}

pub open spec fn is_digit(c: char) -> bool {
    '0' <= c <= '9'
}

/// The number that the decimal digits `s` write.
pub open spec fn decimal(s: Seq<char>) -> nat
    decreases s.len(),
{
    if s.len() == 0 {
        0
    } else {
        decimal(s.drop_last()) * 10 + (s.last() as nat - '0' as nat) as nat
    }
}

/// `s` without its blanks at both ends: `s[lo..hi]`.
pub open spec fn trimmed_bounds(s: Seq<char>, lo: int, hi: int) -> bool {
    &&& 0 <= lo <= hi <= s.len()
    &&& forall|k: int| 0 <= k < lo ==> is_blank(#[trigger] s[k])
    &&& forall|k: int| hi <= k < s.len() ==> is_blank(#[trigger] s[k])
    &&& lo < hi ==> !is_blank(s[lo]) && !is_blank(s[hi - 1])
}

/// Where the digits of the trimmed answer `s[lo..]` start: after a leading
/// `+`, if there is one.
pub open spec fn digits_from(s: Seq<char>, lo: int) -> int {
    if s[lo] == '+' {
        lo + 1
    } else {
        lo
    }
}

/// The trimmed answer `s[lo..hi]` is a number: an optional `+` and one or
/// more decimal digits.
pub open spec fn number_at(s: Seq<char>, lo: int, hi: int) -> bool {
    lo < hi && digits_from(s, lo) < hi && forall|k: int|
        digits_from(s, lo) <= k < hi ==> is_digit(#[trigger] s[k])
}

/// The answer `s` reads as the number `n`, as `str::trim` followed by
/// `str::parse::<usize>` reads it: after blanks are taken off both ends, an
/// optional `+` and one or more decimal digits whose value fits in a `usize`.
pub open spec fn reads_as(s: Seq<char>, n: int) -> bool {
    exists|lo: int, hi: int|
        #![trigger trimmed_bounds(s, lo, hi)]
        trimmed_bounds(s, lo, hi) && number_at(s, lo, hi) && decimal(
            s.subrange(digits_from(s, lo), hi),
        ) == n && n <= usize::MAX
}

proof fn lemma_decimal_grows(s: Seq<char>, c: char)
    requires
        is_digit(c),
    ensures
        decimal(s.push(c)) >= decimal(s),
        decimal(s.push(c)) == decimal(s) * 10 + (c as nat - '0' as nat),
{
    assert(s.push(c).drop_last() =~= s);
}

proof fn lemma_decimal_prefix(s: Seq<char>, i: int)
    requires
        0 <= i <= s.len(),
        forall|k: int| 0 <= k < s.len() ==> is_digit(#[trigger] s[k]),
    ensures
        decimal(s.subrange(0, i)) <= decimal(s),
    decreases s.len() - i,
{
    if i < s.len() {
        lemma_decimal_prefix(s, i + 1);
        lemma_decimal_grows(s.subrange(0, i), s[i]);
        assert(s.subrange(0, i).push(s[i]) =~= s.subrange(0, i + 1));
    } else {
        assert(s.subrange(0, i) =~= s);
    }
}

proof fn lemma_bounds_unique(s: Seq<char>, lo: int, hi: int, lo2: int, hi2: int)
    requires
        trimmed_bounds(s, lo, hi),
        trimmed_bounds(s, lo2, hi2),
        lo < hi,
    ensures
        lo2 == lo && hi2 == hi,
{
    if lo2 < lo {
        assert(is_blank(s[lo2]));
    }
    if lo2 > lo {
        assert(is_blank(s[lo]));
    }
    if hi2 > hi {
        assert(is_blank(s[hi2 - 1]));
    }
    if hi2 < hi {
        assert(is_blank(s[hi - 1]));
    }
}

/// Any reading of `s` has the bounds `lo`, `hi`.
proof fn lemma_reading_at(s: Seq<char>, lo: int, hi: int, n: int)
    requires
        trimmed_bounds(s, lo, hi),
        reads_as(s, n),
    ensures
        number_at(s, lo, hi),
        decimal(s.subrange(digits_from(s, lo), hi)) == n,
        n <= usize::MAX,
{
    let (a, b) = choose|a: int, b: int|
        #![trigger trimmed_bounds(s, a, b)]
        trimmed_bounds(s, a, b) && number_at(s, a, b) && decimal(s.subrange(digits_from(s, a), b))
            == n && n <= usize::MAX;
    lemma_bounds_unique(s, a, b, lo, hi);
}

proof fn lemma_reads_unique(s: Seq<char>, n: int, m: int)
    requires
        reads_as(s, n),
        reads_as(s, m),
    ensures
        n == m,
{
    let (a, b) = choose|a: int, b: int|
        #![trigger trimmed_bounds(s, a, b)]
        trimmed_bounds(s, a, b) && number_at(s, a, b) && decimal(s.subrange(digits_from(s, a), b))
            == n && n <= usize::MAX;
    lemma_reading_at(s, a, b, m);
}

/// The number that an answer gives, if it reads as one.
pub fn parse_selection(answer: &str) -> (r: Option<usize>)
    ensures
        r matches Some(n) ==> reads_as(answer@, n as int),
        r is None ==> forall|n: int| !reads_as(answer@, n),
{
    let cs = crate::template::chars_of(answer);
    let len = cs.len();
    let mut lo: usize = 0;
    while lo < len && blank(cs[lo])
        invariant
            len == cs@.len(),
            lo <= len,
            forall|k: int| 0 <= k < lo ==> is_blank(#[trigger] cs@[k]),
        decreases len - lo,
    {
        lo = lo + 1;
    }
    let mut hi: usize = len;
    while hi > lo && blank(cs[hi - 1])
        invariant
            len == cs@.len(),
            lo <= hi <= len,
            forall|k: int| hi <= k < len ==> is_blank(#[trigger] cs@[k]),
        decreases hi - lo,
    {
        hi = hi - 1;
    }
    assert(trimmed_bounds(answer@, lo as int, hi as int));
    if lo == hi {
        assert forall|n: int| !reads_as(answer@, n) by {
            if reads_as(answer@, n) {
                let (a, b) = choose|a: int, b: int|
                    #![trigger trimmed_bounds(answer@, a, b)]
                    trimmed_bounds(answer@, a, b) && number_at(answer@, a, b) && decimal(
                        answer@.subrange(digits_from(answer@, a), b),
                    ) == n && n <= usize::MAX;
                lemma_bounds_unique(answer@, a, b, lo as int, hi as int);
            }
        }
        return None;
    }
    let start: usize = if cs[lo] == '+' {
        lo + 1
    } else {
        lo
    };
    assert(start == digits_from(answer@, lo as int));
    if start == hi {
        assert forall|n: int| !reads_as(answer@, n) by {
            if reads_as(answer@, n) {
                lemma_reading_at(answer@, lo as int, hi as int, n);
            }
        }
        return None;
    }
    let mut v: usize = 0;
    let mut i: usize = start;
    assert(cs@.subrange(start as int, start as int) =~= Seq::<char>::empty());
    while i < hi
        invariant
            len == cs@.len(),
            cs@ == answer@,
            lo <= start < hi <= len,
            start == digits_from(answer@, lo as int),
            start <= i <= hi,
            trimmed_bounds(answer@, lo as int, hi as int),
            forall|k: int| start <= k < i ==> is_digit(#[trigger] cs@[k]),
            v == decimal(cs@.subrange(start as int, i as int)),
        decreases hi - i,
    {
        let c = cs[i];
        if !('0' <= c && c <= '9') {
            assert forall|n: int| !reads_as(answer@, n) by {
                if reads_as(answer@, n) {
                    lemma_reading_at(answer@, lo as int, hi as int, n);
                    assert(is_digit(answer@[i as int]));
                }
            }
            return None;
        }
        let d = (c as u32 - '0' as u32) as usize;
        proof {
            lemma_decimal_grows(cs@.subrange(start as int, i as int), c);
            assert(cs@.subrange(start as int, i as int).push(c) =~= cs@.subrange(
                start as int,
                i + 1,
            ));
        }
        if v > (usize::MAX - d) / 10 {
            assert forall|n: int| !reads_as(answer@, n) by {
                if reads_as(answer@, n) {
                    lemma_reading_at(answer@, lo as int, hi as int, n);
                    let whole = answer@.subrange(start as int, hi as int);
                    assert(whole.subrange(0, i + 1 - start) =~= cs@.subrange(start as int, i + 1));
                    assert forall|k: int| 0 <= k < whole.len() implies is_digit(
                        #[trigger] whole[k],
                    ) by {
                        assert(whole[k] == answer@[start + k]);
                    }
                    lemma_decimal_prefix(whole, i + 1 - start);
                    assert(v * 10 + d > usize::MAX) by (nonlinear_arith)
                        requires
                            v > (usize::MAX - d) / 10,
                            d <= 9,
                    ;
                }
            }
            return None;
        }
        assert(v * 10 + d <= usize::MAX) by (nonlinear_arith)
            requires
                v <= (usize::MAX - d) / 10,
                d <= 9,
        ;
        v = v * 10 + d;
        i = i + 1;
    }
    assert(reads_as(answer@, v as int)) by {
        assert(cs@.subrange(start as int, hi as int) == answer@.subrange(start as int, hi as int));
        assert(number_at(answer@, lo as int, hi as int));
    }
    Some(v)
}

/// The remote to sync with: the only one, or, among several, the one whose
/// 1-based number `answer` gives.
pub fn select_repo(remotes: &Vec<String>, answer: Option<&str>) -> (r: Result<String, SyncError>)
    ensures
        remotes@.len() == 0 <==> r == Err::<String, SyncError>(SyncError::NoRemote),
        remotes@.len() == 1 ==> (r matches Ok(x) && x@ == remotes@[0]@),
        remotes@.len() > 1 ==> (r is Ok <==> (answer matches Some(a) && exists|n: int|
            1 <= n <= remotes@.len() && #[trigger] reads_as(a@, n))),
        remotes@.len() > 1 ==> (r matches Ok(x) ==> (answer matches Some(a) && exists|n: int|
            1 <= n <= remotes@.len() && #[trigger] reads_as(a@, n) && x@ == remotes@[n - 1]@)),
        r matches Err(e) ==> (e == SyncError::InvalidSelection <==> remotes@.len() > 1),
{
    if remotes.len() == 0 {
        return Err(SyncError::NoRemote);
    }
    if remotes.len() == 1 {
        return Ok(remotes[0].clone());
    }
    let a = match answer {
        None => return Err(SyncError::InvalidSelection),
        Some(a) => a,
    };
    match parse_selection(a) {
        Some(n) => {
            if n >= 1 && n <= remotes.len() {
                Ok(remotes[n - 1].clone())
            } else {
                assert forall|m: int| 1 <= m <= remotes@.len() implies !#[trigger] reads_as(a@, m) by {
                    if reads_as(a@, m) {
                        lemma_reads_unique(a@, n as int, m);
                    }
                }
                Err(SyncError::InvalidSelection)
            }
        },
        None => Err(SyncError::InvalidSelection),
    }
}

} // verus!
