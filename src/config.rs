//! The configuration that the workflows read, and its validation.
use vstd::prelude::*;
use crate::pattern::{pattern_compiles, regex_compiles};
use crate::template::{count_placeholders, placeholder_count};

verus! {

/// How a finished branch is brought into a target branch.
#[derive(Clone, Copy, Debug, PartialEq, Eq, Structural)]
pub enum Strategy {
    Merge,
    Rebase,
    CherryPick,
}

/// A target: a pattern over branch names (or, once expanded, one branch) and
/// the strategy that integrates into it.
#[derive(Clone, Debug)]
pub struct TargetBranch {
    pub name: String,
    pub strategy: Strategy,
}

/// An external command run at a point of a workflow.
#[derive(Clone, Debug)]
pub struct Command {
    pub command: String,
    pub args: Vec<String>,
}

/// A named workflow: its naming template, source branch, targets and hooks.
#[derive(Clone, Debug)]
pub struct BranchType {
    pub name: String,
    pub create: String,
    pub from: String,
    pub to: Vec<TargetBranch>,
    pub before_start: Option<Command>,
    pub after_start: Option<Command>,
    pub before_finish: Option<Command>,
    pub after_finish: Option<Command>,
    pub before_drop: Option<Command>,
    pub after_drop: Option<Command>,
}

#[derive(Clone, Debug)]
pub struct Config {
    pub timeout: Option<u64>,
    pub branch_types: Vec<BranchType>,
}

/// Why a configuration was refused.
#[derive(Debug)]
pub enum ConfigError {
    /// Two branch types share this name.
    DuplicateName(String),
    /// Two branch types share this naming template.
    DuplicateCreate(String),
    /// This target pattern does not compile.
    InvalidTarget(String),
    /// The branch types, in order, whose template does not hold the
    /// placeholder exactly once.
    InvalidCreate(Vec<String>),
}

/// The views of a list of strings.
pub open spec fn strs(v: Seq<String>) -> Seq<Seq<char>> {
    v.map_values(|s: String| s@)
}

/// A copy of a list of strings.
pub fn copy_strings(v: &Vec<String>) -> (r: Vec<String>)
    ensures
        r@ == v@,
{
    let mut r: Vec<String> = Vec::new();
    let mut i: usize = 0;
    while i < v.len()
        invariant
            i <= v@.len(),
            r@ == v@.subrange(0, i as int),
        decreases v@.len() - i,
    {
        r.push(v[i].clone());
        i = i + 1;
        assert(r@ =~= v@.subrange(0, i as int));
    }
    assert(r@ =~= v@);
    r
}

/// Whether `x` is among `v`.
pub fn contains_string(v: &Vec<String>, x: &String) -> (r: bool)
    ensures
        r == strs(v@).contains(x@),
{
    let mut i: usize = 0;
    while i < v.len()
        invariant
            i <= v@.len(),
            forall|k: int| 0 <= k < i ==> v@[k]@ != x@,
        decreases v@.len() - i,
    {
        if v[i] == *x {
            assert(strs(v@)[i as int] == x@);
            return true;
        }
        i = i + 1;
    }
    assert(!strs(v@).contains(x@)) by {
        assert forall|k: int| 0 <= k < v@.len() implies strs(v@)[k] != x@ by {
            assert(strs(v@)[k] == v@[k]@);
        }
    }
    false
}

pub open spec fn names_unique(bts: Seq<BranchType>) -> bool {
    forall|i: int, j: int| 0 <= j < i < bts.len() ==> bts[i].name@ != bts[j].name@
}

pub open spec fn creates_unique(bts: Seq<BranchType>) -> bool {
    forall|i: int, j: int| 0 <= j < i < bts.len() ==> bts[i].create@ != bts[j].create@
}

pub open spec fn targets_compile(bts: Seq<BranchType>) -> bool {
    forall|i: int, k: int|
        0 <= i < bts.len() && 0 <= k < bts[i].to@.len() ==> regex_compiles(bts[i].to@[k].name@)
}

/// The naming template holds the placeholder exactly once.
pub open spec fn create_ok(bt: BranchType) -> bool {
    placeholder_count(bt.create@) == 1
}

pub open spec fn creates_ok(bts: Seq<BranchType>) -> bool {
    forall|i: int| 0 <= i < bts.len() ==> create_ok(#[trigger] bts[i])
}

/// The names, in order, of the branch types whose template is not valid.
pub open spec fn invalid_creates(bts: Seq<BranchType>) -> Seq<Seq<char>>
    decreases bts.len(),
{
    if bts.len() == 0 {
        seq![]
    } else {
        let rest = invalid_creates(bts.drop_last());
        if create_ok(bts.last()) {
            rest
        } else {
            rest.push(bts.last().name@)
        }
    }
}

pub open spec fn config_valid(c: Config) -> bool {
    let bts = c.branch_types@;
    names_unique(bts) && creates_unique(bts) && targets_compile(bts) && creates_ok(bts)
}

/// Refuses two branch types with one name or with one naming template.
pub fn no_duplicate_branch_type(config: &Config) -> (r: Result<(), ConfigError>)
    ensures
        r is Ok <==> names_unique(config.branch_types@) && creates_unique(config.branch_types@),
        r matches Err(e) ==> e is DuplicateName || e is DuplicateCreate,
        r matches Err(ConfigError::DuplicateName(n)) ==> exists|i: int, j: int|
            0 <= j < i < config.branch_types@.len() && config.branch_types@[i].name@
                == config.branch_types@[j].name@ && n@ == config.branch_types@[i].name@,
        r matches Err(ConfigError::DuplicateCreate(c)) ==> exists|i: int, j: int|
            0 <= j < i < config.branch_types@.len() && config.branch_types@[i].create@
                == config.branch_types@[j].create@ && c@ == config.branch_types@[i].create@,
{
    let bts = &config.branch_types;
    let mut i: usize = 0;
    while i < bts.len()
        invariant
            bts@ == config.branch_types@,
            i <= bts@.len(),
            forall|a: int, b: int|
                0 <= b < a < i ==> bts@[a].name@ != bts@[b].name@ && bts@[a].create@
                    != bts@[b].create@,
        decreases bts@.len() - i,
    {
        let mut j: usize = 0;
        while j < i
            invariant
                bts@ == config.branch_types@,
                i < bts@.len(),
                j <= i,
                forall|a: int, b: int|
                    0 <= b < a < i ==> bts@[a].name@ != bts@[b].name@ && bts@[a].create@
                        != bts@[b].create@,
                forall|b: int|
                    0 <= b < j ==> bts@[i as int].name@ != bts@[b].name@ && bts@[i as int].create@
                        != bts@[b].create@,
            decreases i - j,
        {
            if bts[i].name == bts[j].name {
                assert(!names_unique(bts@) && exists|a: int, b: int|
                    0 <= b < a < bts@.len() && bts@[a].name@ == bts@[b].name@ && bts@[i as int].name@
                        == bts@[a].name@) by {
                    assert(bts@[i as int].name@ == bts@[j as int].name@);
                }
                return Err(ConfigError::DuplicateName(bts[i].name.clone()));
            }
            if bts[i].create == bts[j].create {
                assert(!creates_unique(bts@) && exists|a: int, b: int|
                    0 <= b < a < bts@.len() && bts@[a].create@ == bts@[b].create@
                        && bts@[i as int].create@ == bts@[a].create@) by {
                    assert(bts@[i as int].create@ == bts@[j as int].create@);
                }
                return Err(ConfigError::DuplicateCreate(bts[i].create.clone()));
            }
            j = j + 1;
        }
        i = i + 1;
    }
    Ok(())
}

/// Refuses a target pattern that does not compile.
pub fn target_is_valid_regex(config: &Config) -> (r: Result<(), ConfigError>)
    ensures
        r is Ok <==> targets_compile(config.branch_types@),
        r matches Err(e) ==> e is InvalidTarget,
        r matches Err(ConfigError::InvalidTarget(p)) ==> exists|i: int, k: int|
            0 <= i < config.branch_types@.len() && 0 <= k < config.branch_types@[i].to@.len()
                && p@ == config.branch_types@[i].to@[k].name@ && !regex_compiles(p@),
{
    let bts = &config.branch_types;
    let mut i: usize = 0;
    while i < bts.len()
        invariant
            bts@ == config.branch_types@,
            i <= bts@.len(),
            forall|a: int, k: int|
                0 <= a < i && 0 <= k < bts@[a].to@.len() ==> regex_compiles(bts@[a].to@[k].name@),
        decreases bts@.len() - i,
    {
        let to = &bts[i].to;
        let mut k: usize = 0;
        while k < to.len()
            invariant
                bts@ == config.branch_types@,
                i < bts@.len(),
                to@ == bts@[i as int].to@,
                k <= to@.len(),
                forall|a: int, c: int|
                    0 <= a < i && 0 <= c < bts@[a].to@.len() ==> regex_compiles(
                        bts@[a].to@[c].name@,
                    ),
                forall|c: int| 0 <= c < k ==> regex_compiles(to@[c].name@),
            decreases to@.len() - k,
        {
            if !pattern_compiles(to[k].name.as_str()) {
                assert(!targets_compile(bts@) && exists|a: int, c: int|
                    0 <= a < bts@.len() && 0 <= c < bts@[a].to@.len() && to@[k as int].name@
                        == bts@[a].to@[c].name@) by {
                    assert(to@[k as int].name@ == bts@[i as int].to@[k as int].name@);
                }
                return Err(ConfigError::InvalidTarget(to[k].name.clone()));
            }
            k = k + 1;
        }
        i = i + 1;
    }
    Ok(())
}

/// Refuses the branch types whose naming template does not hold the
/// placeholder exactly once, naming all of them.
pub fn create_is_valid(config: &Config) -> (r: Result<(), ConfigError>)
    ensures
        r is Ok <==> creates_ok(config.branch_types@),
        r matches Err(e) ==> e is InvalidCreate,
        r matches Err(ConfigError::InvalidCreate(v)) ==> strs(v@) == invalid_creates(
            config.branch_types@,
        ),
{
    let bts = &config.branch_types;
    let mut names: Vec<String> = Vec::new();
    let mut i: usize = 0;
    while i < bts.len()
        invariant
            bts@ == config.branch_types@,
            i <= bts@.len(),
            strs(names@) == invalid_creates(bts@.subrange(0, i as int)),
            names@.len() == 0 <==> creates_ok(bts@.subrange(0, i as int)),
        decreases bts@.len() - i,
    {
        let ghost before = bts@.subrange(0, i as int);
        let ghost after = bts@.subrange(0, i + 1);
        assert(after.drop_last() =~= before);
        if count_placeholders(bts[i].create.as_str()) != 1 {
            names.push(bts[i].name.clone());
            assert(strs(names@) =~= invalid_creates(after));
        } else {
            assert(creates_ok(after) <==> creates_ok(before)) by {
                if creates_ok(before) {
                    assert forall|a: int| 0 <= a < after.len() implies create_ok(
                        #[trigger] after[a],
                    ) by {
                        if a < before.len() {
                            assert(after[a] == before[a]);
                        }
                    }
                }
                if creates_ok(after) {
                    assert forall|a: int| 0 <= a < before.len() implies create_ok(
                        #[trigger] before[a],
                    ) by {
                        assert(after[a] == before[a]);
                    }
                }
            }
        }
        i = i + 1;
    }
    assert(bts@.subrange(0, bts@.len() as int) =~= bts@);
    if names.len() > 0 {
        return Err(ConfigError::InvalidCreate(names));
    }
    Ok(())
}

/// Checks a configuration: unique names and templates, target patterns that
/// compile, and templates that hold the placeholder exactly once, in that
/// order.
pub fn validate_config(config: &Config) -> (r: Result<(), ConfigError>)
    ensures
        r is Ok <==> config_valid(*config),
        r matches Err(e) ==> ((e is DuplicateName || e is DuplicateCreate) <==> !(names_unique(
            config.branch_types@,
        ) && creates_unique(config.branch_types@))),
        r matches Err(e) ==> (e is InvalidTarget <==> names_unique(config.branch_types@)
            && creates_unique(config.branch_types@) && !targets_compile(config.branch_types@)),
        r matches Err(ConfigError::InvalidCreate(v)) ==> names_unique(config.branch_types@)
            && creates_unique(config.branch_types@) && targets_compile(config.branch_types@)
            && strs(v@) == invalid_creates(config.branch_types@),
{
    no_duplicate_branch_type(config)?;
    target_is_valid_regex(config)?;
    create_is_valid(config)?;
    Ok(())
}

} // verus!
