use git_flow::env::{env_valid, get_config_path_list, EnvError};
use git_flow::sync::{
    next_sync_op, parse_selection, plan_sync, select_repo, sync_branches, SyncError, SyncOp, SyncStrategy,
    SyncTarget,
};

fn strings(v: &[&str]) -> Vec<String> {
    v.iter().map(|s| s.to_string()).collect()
}

#[test]
fn increment_creates_what_is_missing() {
    // to Remote: the local branches are the source
    let plan = plan_sync(SyncTarget::Remote, SyncStrategy::Increment, &strings(&["a", "b"]), &strings(&["a"]));
    assert!(!plan.in_sync);
    assert_eq!(plan.to_create, strings(&["b"]));
    assert!(plan.to_delete.is_empty());
}

#[test]
fn override_deletes_before_creating() {
    let plan = plan_sync(SyncTarget::Remote, SyncStrategy::Override, &strings(&["a"]), &strings(&["a", "b"]));
    assert_eq!(plan.to_delete, strings(&["b"]));
    assert!(plan.to_create.is_empty());

    let ops = sync_branches("origin", SyncTarget::Local, SyncStrategy::Override, &strings(&["a", "x"]), &strings(&["a", "y"]));
    assert_eq!(ops.len(), 2);
    assert!(matches!(&ops[0], SyncOp::DeleteLocalBranch { branch } if branch == "x"));
    assert!(matches!(&ops[1], SyncOp::CreateLocalBranch { source, name }
        if source == "origin/y" && name == "y"));
}

#[test]
fn identical_sets_need_nothing() {
    let plan = plan_sync(SyncTarget::Local, SyncStrategy::Override, &strings(&["a", "b"]), &strings(&["b", "a"]));
    assert!(plan.in_sync);
    assert!(plan.to_create.is_empty() && plan.to_delete.is_empty());
    let ops = sync_branches("origin", SyncTarget::Local, SyncStrategy::Override, &strings(&["a", "b"]), &strings(&["b", "a"]));
    assert!(ops.is_empty());
}

#[test]
fn remote_creation_pushes_the_same_name() {
    let ops = sync_branches("up", SyncTarget::Remote, SyncStrategy::Override, &strings(&["main", "dev"]), &strings(&["main", "old"]));
    assert_eq!(ops.len(), 2);
    assert!(matches!(&ops[0], SyncOp::DeleteRemoteBranch { repo, branch } if repo == "up" && branch == "old"));
    assert!(matches!(&ops[1], SyncOp::CreateRemoteBranch { repo, local, remote }
        if repo == "up" && local == "dev" && remote == "dev"));
}

#[test]
fn remote_selection() {
    assert_eq!(select_repo(&vec![], None).unwrap_err(), SyncError::NoRemote);
    assert_eq!(select_repo(&strings(&["origin"]), None).unwrap(), "origin");
    let many = strings(&["origin", "upstream", "fork"]);
    assert_eq!(select_repo(&many, Some("2\n")).unwrap(), "upstream");
    assert_eq!(select_repo(&many, Some(" 3 ")).unwrap(), "fork");
    assert_eq!(select_repo(&many, Some("1")).unwrap(), "origin");
    assert_eq!(select_repo(&many, Some("0")).unwrap_err(), SyncError::InvalidSelection);
    assert_eq!(select_repo(&many, Some("4")).unwrap_err(), SyncError::InvalidSelection);
    assert_eq!(select_repo(&many, Some("two")).unwrap_err(), SyncError::InvalidSelection);
    assert_eq!(select_repo(&many, None).unwrap_err(), SyncError::InvalidSelection);
}

#[test]
fn parses_answers() {
    assert_eq!(parse_selection("12"), Some(12));
    assert_eq!(parse_selection("\t7\r\n"), Some(7));
    assert_eq!(parse_selection(""), None);
    assert_eq!(parse_selection("  "), None);
    assert_eq!(parse_selection("1 2"), None);
    assert_eq!(parse_selection("-1"), None);
    assert_eq!(parse_selection("18446744073709551615"), Some(usize::MAX));
    assert_eq!(parse_selection("18446744073709551616"), None);
}

#[test]
fn environment_checks() {
    assert_eq!(env_valid(false, true).unwrap_err(), EnvError::ToolMissing);
    assert_eq!(env_valid(true, false).unwrap_err(), EnvError::NotInWorkTree);
    assert!(env_valid(true, true).is_ok());
}

#[test]
fn config_paths_local_first() {
    let paths = get_config_path_list("/work/repo", "/home/me/.config");
    assert_eq!(
        paths,
        strings(&["/work/repo/.git-flow.toml", "/home/me/.config/git-flow/config.toml"])
    );
}

#[test]
fn answers_may_carry_a_plus_sign() {
    assert_eq!(parse_selection("+1"), Some(1));
    assert_eq!(parse_selection(" +12\n"), Some(12));
    assert_eq!(parse_selection("+"), None);
    assert_eq!(parse_selection("++1"), None);
    assert_eq!(parse_selection("1+"), None);
    let many = strings(&["origin", "upstream"]);
    assert_eq!(select_repo(&many, Some("+1")).unwrap(), "origin");
}

#[test]
fn answers_lose_every_kind_of_blank() {
    assert_eq!(parse_selection("\u{3000}2\u{a0}"), Some(2));
    assert_eq!(parse_selection("\u{b}\u{c}3\u{85}"), Some(3));
    assert_eq!(parse_selection("\u{2003}+4\u{2029}"), Some(4));
    assert_eq!(parse_selection("4\u{200b}"), None);
    let many = strings(&["origin", "upstream"]);
    assert_eq!(select_repo(&many, Some("\u{3000}2\u{3000}")).unwrap(), "upstream");
}

#[test]
fn changes_stop_at_the_first_failure() {
    assert_eq!(next_sync_op(3, &vec![]), Some(0));
    assert_eq!(next_sync_op(3, &vec![true, true]), Some(2));
    assert_eq!(next_sync_op(3, &vec![true, true, true]), None);
    assert_eq!(next_sync_op(3, &vec![true, false]), None);
    assert_eq!(next_sync_op(0, &vec![]), None);
}
