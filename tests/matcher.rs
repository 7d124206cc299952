use git_flow::config::{Strategy, TargetBranch};
use git_flow::matcher::match_targets;

fn strings(v: &[&str]) -> Vec<String> {
    v.iter().map(|s| s.to_string()).collect()
}

fn target(name: &str, strategy: Strategy) -> TargetBranch {
    TargetBranch { name: name.to_string(), strategy }
}

fn pairs(ts: &[TargetBranch]) -> Vec<(String, Strategy)> {
    ts.iter().map(|t| (t.name.clone(), t.strategy)).collect()
}

#[test]
fn release_pattern_matches_release_branch() {
    let branches = strings(&["main", "feature/login", "release/1.0"]);
    let r = match_targets(&vec![target("release/.*", Strategy::Merge)], &branches);
    assert_eq!(pairs(&r), vec![("release/1.0".to_string(), Strategy::Merge)]);
}

#[test]
fn patterns_search_anywhere_and_keep_first_strategy() {
    let branches = strings(&["main", "release/1.0", "release/2.0", "feature/main-menu"]);
    let specs = vec![target("release", Strategy::CherryPick), target("main|release/2", Strategy::Rebase)];
    let r = match_targets(&specs, &branches);
    assert_eq!(
        pairs(&r),
        vec![
            ("release/1.0".to_string(), Strategy::CherryPick),
            ("release/2.0".to_string(), Strategy::CherryPick),
            ("main".to_string(), Strategy::Rebase),
            ("feature/main-menu".to_string(), Strategy::Rebase),
        ]
    );
}

#[test]
fn no_match_is_empty() {
    let r = match_targets(&vec![target("^develop$", Strategy::Merge)], &strings(&["main"]));
    assert!(r.is_empty());
    let r = match_targets(&vec![], &strings(&["main"]));
    assert!(r.is_empty());
}

#[test]
fn selection_follows_the_given_matches() {
    let branches = strings(&["a", "b", "c"]);
    let specs = vec![target("x", Strategy::Merge), target("y", Strategy::Rebase)];
    let hits = vec![vec![false, true, false], vec![true, true, false]];
    let r = git_flow::matcher::select_targets(&specs, &branches, &hits);
    assert_eq!(
        pairs(&r),
        vec![("b".to_string(), Strategy::Merge), ("a".to_string(), Strategy::Rebase)]
    );
    let short_rows = vec![vec![true]];
    let r = git_flow::matcher::select_targets(&specs, &branches, &short_rows);
    assert_eq!(pairs(&r), vec![("a".to_string(), Strategy::Merge)]);
}
