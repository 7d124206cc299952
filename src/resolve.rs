//! Resolving what the user typed into a branch type and a full branch name.
use vstd::prelude::*;
use vstd::string::*;
use crate::config::{BranchType, Config};
use crate::pattern::{pattern_hits, pattern_search, regex_group};
use crate::template::{substitute, substituted};

verus! {

/// A branch type, by its position in the configuration, with the short and
/// the full name of the branch.
#[derive(Debug)]
pub struct Resolved {
    pub index: usize,
    pub short_name: String,
    pub full_name: String,
}

#[derive(Debug, PartialEq, Eq, Structural)]
pub enum ResolveError {
    /// No branch type has the given name.
    NoSuchBranchType,
    /// No branch type's template matches the given full name.
    AmbiguousOrMissing,
}

/// `i` is the first position of a branch type named `name`.
pub open spec fn first_named(bts: Seq<BranchType>, name: Seq<char>, i: int) -> bool {
    0 <= i < bts.len() && bts[i].name@ == name && forall|j: int|
        0 <= j < i ==> bts[j].name@ != name
}

/// The anchored pattern of a template: the placeholder becomes a capture
/// group that takes anything.
pub open spec fn match_pattern(create: Seq<char>) -> Seq<char> {
    "^"@ + substituted(create, "(.*)"@) + "$"@
}

pub open spec fn type_matches(bt: BranchType, full: Seq<char>) -> bool {
    pattern_hits(match_pattern(bt.create@), full)
}

/// `i` is the first position of a branch type whose template matches `full`.
pub open spec fn first_matching(bts: Seq<BranchType>, full: Seq<char>, i: int) -> bool {
    0 <= i < bts.len() && type_matches(bts[i], full) && forall|j: int|
        0 <= j < i ==> !type_matches(bts[j], full)
}

/// The short name inside `full` for template `create`: the text of the
/// first capture group of the anchored template, or nothing when that group
/// took no part. That group is the placeholder's unless the template holds
/// parentheses of its own before the placeholder.
pub open spec fn short_of(create: Seq<char>, full: Seq<char>) -> Seq<char> {
    match regex_group(match_pattern(create), full) {
        Some(g) => g,
        None => seq![],
    }
}

fn anchored_pattern(create: &str) -> (r: String)
    ensures
        r@ == match_pattern(create@),
{
    let body = substitute(create, "(.*)");
    let mut r = String::from_str("^");
    r.append(body.as_str());
    r.append("$");
    r
}

/// The branch type named `kind_name`, and the full name that its template
/// gives to `short_name`.
pub fn resolve_explicit(config: &Config, kind_name: &str, short_name: &str) -> (r: Result<
    Resolved,
    ResolveError,
>)
    ensures
        r is Ok <==> exists|i: int|
            0 <= i < config.branch_types@.len() && #[trigger] config.branch_types@[i].name@
                == kind_name@,
        r matches Err(e) ==> e == ResolveError::NoSuchBranchType,
        r matches Ok(res) ==> first_named(config.branch_types@, kind_name@, res.index as int)
            && res.short_name@ == short_name@ && res.full_name@ == substituted(
            config.branch_types@[res.index as int].create@,
            short_name@,
        ),
{
    let bts = &config.branch_types;
    let wanted = String::from_str(kind_name);
    let mut i: usize = 0;
    while i < bts.len()
        invariant
            bts@ == config.branch_types@,
            wanted@ == kind_name@,
            i <= bts@.len(),
            forall|j: int| 0 <= j < i ==> bts@[j].name@ != kind_name@,
        decreases bts@.len() - i,
    {
        if bts[i].name == wanted {
            let full_name = substitute(bts[i].create.as_str(), short_name);
            return Ok(Resolved { index: i, short_name: String::from_str(short_name), full_name });
        }
        i = i + 1;
    }
    Err(ResolveError::NoSuchBranchType)
}

/// What a search result says of a branch name: whether it matched, and the
/// short name that the placeholder's group took (nothing when it took no part).
pub open spec fn found_short(f: Option<Option<String>>) -> Seq<char> {
    match f {
        Some(Some(g)) => g@,
        _ => seq![],
    }
}

/// `i` is the first position where `found` holds a match.
pub open spec fn first_found(found: Seq<Option<Option<String>>>, i: int) -> bool {
    0 <= i < found.len() && found[i] is Some && forall|j: int| 0 <= j < i ==> found[j] is None
}

/// The resolution of `full_name`, given for each branch type, in order, the
/// search of its anchored template in `full_name`: `None` where it did not
/// match, else the text of the placeholder's group if that took part.
pub fn resolve_with(full_name: &str, found: &Vec<Option<Option<String>>>) -> (r: Result<
    Resolved,
    ResolveError,
>)
    ensures
        r is Ok <==> exists|i: int| 0 <= i < found@.len() && #[trigger] found@[i] is Some,
        r matches Err(e) ==> e == ResolveError::AmbiguousOrMissing,
        r matches Ok(res) ==> first_found(found@, res.index as int) && res.full_name@ == full_name@
            && res.short_name@ == found_short(found@[res.index as int]),
{
    let mut i: usize = 0;
    while i < found.len()
        invariant
            i <= found@.len(),
            forall|j: int| 0 <= j < i ==> found@[j] is None,
        decreases found@.len() - i,
    {
        match &found[i] {
            Some(group) => {
                let short_name = match group {
                    Some(g) => g.clone(),
                    None => String::new(),
                };
                return Ok(
                    Resolved { index: i, short_name, full_name: String::from_str(full_name) },
                );
            },
            None => {},
        }
        i = i + 1;
    }
    Err(ResolveError::AmbiguousOrMissing)
}

/// The first branch type whose template matches `full_name`, and the short
/// name inside it.
pub fn resolve_implicit(config: &Config, full_name: &str) -> (r: Result<Resolved, ResolveError>)
    ensures
        r is Ok <==> exists|i: int|
            0 <= i < config.branch_types@.len() && type_matches(
                #[trigger] config.branch_types@[i],
                full_name@,
            ),
        r matches Err(e) ==> e == ResolveError::AmbiguousOrMissing,
        r matches Ok(res) ==> first_matching(config.branch_types@, full_name@, res.index as int)
            && res.full_name@ == full_name@ && res.short_name@ == short_of(
            config.branch_types@[res.index as int].create@,
            full_name@,
        ),
{
    let bts = &config.branch_types;
    let mut found: Vec<Option<Option<String>>> = Vec::new();
    let mut i: usize = 0;
    while i < bts.len()
        invariant
            bts@ == config.branch_types@,
            i <= bts@.len(),
            found@.len() == i,
            forall|j: int|
                0 <= j < i ==> (#[trigger] found@[j] is Some <==> type_matches(bts@[j], full_name@)),
            forall|j: int|
                0 <= j < i && #[trigger] found@[j] is Some ==> found_short(found@[j]) == short_of(
                    bts@[j].create@,
                    full_name@,
                ),
        decreases bts@.len() - i,
    {
        let pattern = anchored_pattern(bts[i].create.as_str());
        let f = pattern_search(pattern.as_str(), full_name);
        assert(f is Some ==> found_short(f) == short_of(bts@[i as int].create@, full_name@));
        let ghost before = found@;
        found.push(f);
        assert(forall|j: int| 0 <= j < i ==> found@[j] == before[j]);
        i = i + 1;
    }
    let r = resolve_with(full_name, &found);
    assert(r is Ok ==> exists|i: int|
        0 <= i < config.branch_types@.len() && type_matches(
            #[trigger] config.branch_types@[i],
            full_name@,
        )) by {
        if r is Ok {
            let k = choose|k: int| 0 <= k < found@.len() && #[trigger] found@[k] is Some;
            assert(type_matches(config.branch_types@[k], full_name@));
        }
    }
    assert((exists|i: int|
        0 <= i < config.branch_types@.len() && type_matches(
            #[trigger] config.branch_types@[i],
            full_name@,
        )) ==> r is Ok) by {
        if exists|i: int|
            0 <= i < config.branch_types@.len() && type_matches(
                #[trigger] config.branch_types@[i],
                full_name@,
            ) {
            let k = choose|k: int|
                0 <= k < config.branch_types@.len() && type_matches(
                    #[trigger] config.branch_types@[k],
                    full_name@,
                );
            assert(found@[k] is Some);
        }
    }
    proof {
        if r is Ok {
            let idx = r->Ok_0.index as int;
            assert forall|j: int| 0 <= j < idx implies !type_matches(
                config.branch_types@[j],
                full_name@,
            ) by {
                assert(found@[j] is None);
            }
            assert(found@[idx] is Some);
        }
    }
    r
}

/// Resolves `branch_name` under the branch type named `branch_type` when one
/// is given, and as a full name otherwise.
pub fn get_branch_type_name(config: &Config, branch_name: &str, branch_type: Option<&str>) -> (r:
    Result<Resolved, ResolveError>)
    ensures
        branch_type matches Some(t) ==> (r is Ok <==> exists|i: int|
            0 <= i < config.branch_types@.len() && #[trigger] config.branch_types@[i].name@ == t@),
        branch_type matches Some(t) ==> (r matches Ok(res) ==> first_named(
            config.branch_types@,
            t@,
            res.index as int,
        ) && res.short_name@ == branch_name@ && res.full_name@ == substituted(
            config.branch_types@[res.index as int].create@,
            branch_name@,
        )),
        branch_type is None ==> (r is Ok <==> exists|i: int|
            0 <= i < config.branch_types@.len() && type_matches(
                #[trigger] config.branch_types@[i],
                branch_name@,
            )),
        branch_type is None ==> (r matches Ok(res) ==> first_matching(
            config.branch_types@,
            branch_name@,
            res.index as int,
        ) && res.full_name@ == branch_name@ && res.short_name@ == short_of(
            config.branch_types@[res.index as int].create@,
            branch_name@,
        )),
        r matches Err(e) ==> (e == ResolveError::NoSuchBranchType <==> branch_type is Some),
{
    match branch_type {
        Some(t) => resolve_explicit(config, t, branch_name),
        None => resolve_implicit(config, branch_name),
    }
}

} // verus!
