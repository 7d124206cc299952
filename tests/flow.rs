use git_flow::config::{BranchType, Command, Strategy, TargetBranch};
use git_flow::flow::{drop_task, finish_task, start_task, track_task, Ending, Flow, Reply, Step};

fn strings(v: &[&str]) -> Vec<String> {
    v.iter().map(|s| s.to_string()).collect()
}

fn target(name: &str, strategy: Strategy) -> TargetBranch {
    TargetBranch { name: name.to_string(), strategy }
}

fn hook(command: &str, args: &[&str]) -> Option<Command> {
    Some(Command { command: command.to_string(), args: strings(args) })
}

fn feature(to: Vec<TargetBranch>) -> BranchType {
    BranchType {
        name: "feature".to_string(),
        create: "feature/{new_branch}".to_string(),
        from: "main".to_string(),
        to,
        before_start: None,
        after_start: None,
        before_finish: None,
        after_finish: None,
        before_drop: None,
        after_drop: None,
    }
}

fn finished(step: &Step) -> Option<(Ending, String)> {
    match step {
        Step::Finished { ending, detail } => Some((*ending, detail.clone())),
        _ => None,
    }
}

fn result_of(step: &Step) -> Result<(), String> {
    match finished(step) {
        Some((ending, detail)) if ending.is_ok() => {
            let _ = detail;
            Ok(())
        }
        Some((_, detail)) => Err(detail),
        None => panic!("the workflow has not finished: {:?}", step),
    }
}

/// Walks a finish of `undefined` with one target of `strategy` up to the
/// integration step, and answers it with `failure`.
fn integrate_undefined(strategy: Strategy, commits: Vec<String>, failure: &str) -> Step {
    let mut flow: Flow =
        finish_task(feature(vec![target("main", strategy)]), "undefined".to_string(), "undefined".to_string());
    assert!(matches!(flow.advance(Reply::Done), Step::ListLocalBranches));
    let step = flow.advance(Reply::Branches(strings(&["main", "undefined"])));
    if strategy == Strategy::CherryPick {
        match &step {
            Step::DiffCommits { source, target } => {
                assert_eq!(source, "undefined");
                assert_eq!(target, "main");
            }
            other => panic!("unexpected step {:?}", other),
        }
        let step = flow.advance(Reply::Commits(commits));
        assert!(matches!(step, Step::Switch { ref branch } if branch == "main"));
    } else {
        assert!(matches!(step, Step::Switch { ref branch } if branch == "main"));
    }
    let step = flow.advance(Reply::Done);
    match (&step, strategy) {
        (Step::Merge { source }, Strategy::Merge) => assert_eq!(source, "undefined"),
        (Step::Rebase { base }, Strategy::Rebase) => assert_eq!(base, "undefined"),
        (Step::CherryPick { commits }, Strategy::CherryPick) => {
            assert_eq!(commits, &strings(&["undefined"]))
        }
        other => panic!("unexpected step {:?}", other),
    }
    let step = flow.advance(Reply::Failed(failure.to_string()));
    assert!(flow.stage == git_flow::flow::Stage::Done);
    step
}

#[test]
fn merge_t() {
    let step = integrate_undefined(
        Strategy::Merge,
        vec![],
        "merge: undefined - not something we can merge",
    );
    let result = result_of(&step);
    assert_eq!(result.is_ok(), false);
    assert_eq!(finished(&step).unwrap().0, Ending::VcsFailed);
}

#[test]
fn rebase_t() {
    let step = integrate_undefined(Strategy::Rebase, vec![], "fatal: invalid upstream 'undefined'");
    let result = result_of(&step);
    assert_eq!(result.is_ok(), false);
    assert_eq!(
        finished(&step).unwrap(),
        (Ending::VcsFailed, "fatal: invalid upstream 'undefined'".to_string())
    );
}

#[test]
fn cherry_pick_t() {
    let step = integrate_undefined(
        Strategy::CherryPick,
        strings(&["undefined"]),
        "fatal: bad revision 'undefined'",
    );
    let result = result_of(&step);
    assert_eq!(result.is_ok(), false);
}

#[test]
fn merge_conflict_gets_its_own_ending() {
    let step = integrate_undefined(Strategy::Merge, vec![], "");
    assert_eq!(finished(&step).unwrap(), (Ending::MergeConflict, "main".to_string()));
}

#[test]
fn rebase_failing_without_text_is_a_tool_failure() {
    let step = integrate_undefined(Strategy::Rebase, vec![], "");
    assert_eq!(finished(&step).unwrap(), (Ending::VcsFailed, String::new()));
}

#[test]
fn drop_t() {
    let mut flow = drop_task(feature(vec![]), "test".to_string(), "feature/test".to_string());
    assert!(matches!(flow.advance(Reply::Done), Step::ListLocalBranches));
    let step = flow.advance(Reply::Branches(strings(&["main", "feature/test"])));
    assert!(matches!(step, Step::Switch { ref branch } if branch == "main"));
    let step = flow.advance(Reply::Done);
    assert!(matches!(step, Step::DeleteLocalBranch { ref branch } if branch == "feature/test"));
    let step = flow.advance(Reply::Done);
    assert_eq!(finished(&step).unwrap().0, Ending::Completed);
}

#[test]
fn drop_of_a_missing_branch_fails_before_any_change() {
    let mut flow = drop_task(feature(vec![]), "test".to_string(), "feature/test".to_string());
    flow.advance(Reply::Done);
    let step = flow.advance(Reply::Branches(strings(&["main"])));
    assert_eq!(
        finished(&step).unwrap(),
        (Ending::BranchMissing, "feature/test".to_string())
    );
}

#[test]
fn drop_runs_its_hooks_around_the_deletion() {
    let mut bt = feature(vec![]);
    bt.before_drop = hook("echo", &["bye {new_branch}"]);
    bt.after_drop = hook("echo", &["gone"]);
    let mut flow = drop_task(bt, "test".to_string(), "feature/test".to_string());
    flow.advance(Reply::Done);
    match flow.advance(Reply::Branches(strings(&["main", "feature/test"]))) {
        Step::RunHook { command, args } => {
            assert_eq!(command, "echo");
            assert_eq!(args, strings(&["bye test"]));
        }
        other => panic!("unexpected step {:?}", other),
    }
    assert!(matches!(flow.advance(Reply::Done), Step::Switch { .. }));
    assert!(matches!(flow.advance(Reply::Done), Step::DeleteLocalBranch { .. }));
    assert!(matches!(flow.advance(Reply::Done), Step::RunHook { .. }));
    let step = flow.advance(Reply::Failed("no".to_string()));
    assert_eq!(finished(&step).unwrap(), (Ending::AfterHookFailed, "no".to_string()));
}

#[test]
fn start_creates_and_switches() {
    let mut bt = feature(vec![]);
    bt.after_start = hook("touch", &["{new_branch}.md", "notes"]);
    let mut flow = start_task(bt, "login".to_string(), "feature/login".to_string());
    assert!(matches!(flow.advance(Reply::Done), Step::ListLocalBranches));
    match flow.advance(Reply::Branches(strings(&["main"]))) {
        Step::CreateLocalBranch { source, name } => {
            assert_eq!(source, "main");
            assert_eq!(name, "feature/login");
        }
        other => panic!("unexpected step {:?}", other),
    }
    assert!(matches!(flow.advance(Reply::Done), Step::Switch { ref branch } if branch == "feature/login"));
    match flow.advance(Reply::Done) {
        Step::RunHook { command, args } => {
            assert_eq!(command, "touch");
            assert_eq!(args, strings(&["login.md", "notes"]));
        }
        other => panic!("unexpected step {:?}", other),
    }
    let step = flow.advance(Reply::Done);
    assert_eq!(finished(&step).unwrap().0, Ending::Completed);
}

#[test]
fn start_needs_the_source_and_a_free_name() {
    let mut flow = start_task(feature(vec![]), "login".to_string(), "feature/login".to_string());
    flow.advance(Reply::Done);
    let step = flow.advance(Reply::Branches(strings(&["develop"])));
    assert_eq!(finished(&step).unwrap(), (Ending::SourceMissing, "main".to_string()));

    let mut flow = start_task(feature(vec![]), "login".to_string(), "feature/login".to_string());
    flow.advance(Reply::Done);
    let step = flow.advance(Reply::Branches(strings(&["main", "feature/login"])));
    assert_eq!(finished(&step).unwrap(), (Ending::BranchExists, "feature/login".to_string()));
}

#[test]
fn failing_before_start_hook_prevents_creation() {
    let mut bt = feature(vec![]);
    bt.before_start = hook("check", &["{new_branch}"]);
    let mut flow = start_task(bt, "login".to_string(), "feature/login".to_string());
    flow.advance(Reply::Done);
    match flow.advance(Reply::Branches(strings(&["main"]))) {
        Step::RunHook { command, args } => {
            assert_eq!(command, "check");
            assert_eq!(args, strings(&["login"]));
        }
        other => panic!("unexpected step {:?}", other),
    }
    let step = flow.advance(Reply::Failed("not allowed".to_string()));
    assert_eq!(finished(&step).unwrap(), (Ending::HookFailed, "not allowed".to_string()));
    assert!(flow.stage == git_flow::flow::Stage::Done);
}

#[test]
fn failing_after_finish_hook_keeps_the_branch_deleted() {
    let mut bt = feature(vec![target("main", Strategy::Merge)]);
    bt.before_finish = hook("test", &[]);
    bt.after_finish = hook("notify", &["{new_branch}"]);
    let mut flow = finish_task(bt, "login".to_string(), "feature/login".to_string());
    flow.advance(Reply::Done);
    assert!(matches!(
        flow.advance(Reply::Branches(strings(&["main", "feature/login"]))),
        Step::RunHook { .. }
    ));
    assert!(matches!(flow.advance(Reply::Done), Step::Switch { ref branch } if branch == "main"));
    assert!(matches!(flow.advance(Reply::Done), Step::Merge { ref source } if source == "feature/login"));
    assert!(matches!(flow.advance(Reply::Done), Step::Switch { ref branch } if branch == "main"));
    assert!(matches!(
        flow.advance(Reply::Done),
        Step::DeleteLocalBranch { ref branch } if branch == "feature/login"
    ));
    match flow.advance(Reply::Done) {
        Step::RunHook { command, args } => {
            assert_eq!(command, "notify");
            assert_eq!(args, strings(&["login"]));
        }
        other => panic!("unexpected step {:?}", other),
    }
    let step = flow.advance(Reply::Failed("unreachable host".to_string()));
    assert_eq!(
        finished(&step).unwrap(),
        (Ending::AfterHookFailed, "unreachable host".to_string())
    );
    assert!(result_of(&step).is_ok());
}

#[test]
fn empty_cherry_pick_is_skipped_and_later_targets_run() {
    let bt = feature(vec![target("release/.*", Strategy::CherryPick), target("^main$", Strategy::Rebase)]);
    let mut flow = finish_task(bt, "login".to_string(), "feature/login".to_string());
    flow.advance(Reply::Done);
    let step = flow.advance(Reply::Branches(strings(&["main", "feature/login", "release/1.0"])));
    assert!(matches!(step, Step::DiffCommits { ref source, ref target }
        if source == "feature/login" && target == "release/1.0"));
    let step = flow.advance(Reply::Commits(vec![]));
    assert!(matches!(step, Step::NothingToPick { ref target } if target == "release/1.0"));
    let step = flow.advance(Reply::Done);
    assert!(matches!(step, Step::Switch { ref branch } if branch == "main"));
    let step = flow.advance(Reply::Done);
    assert!(matches!(step, Step::Rebase { ref base } if base == "feature/login"));
    assert!(matches!(flow.advance(Reply::Done), Step::Switch { ref branch } if branch == "main"));
    assert!(matches!(flow.advance(Reply::Done), Step::DeleteLocalBranch { .. }));
    let step = flow.advance(Reply::Done);
    assert_eq!(finished(&step).unwrap().0, Ending::Completed);
}

#[test]
fn cherry_pick_keeps_the_order_of_the_commits() {
    let bt = feature(vec![target("release", Strategy::CherryPick)]);
    let mut flow = finish_task(bt, "login".to_string(), "feature/login".to_string());
    flow.advance(Reply::Done);
    flow.advance(Reply::Branches(strings(&["main", "feature/login", "release/2.0"])));
    let step = flow.advance(Reply::Commits(strings(&["c1", "c2", "c3"])));
    assert!(matches!(step, Step::Switch { ref branch } if branch == "release/2.0"));
    match flow.advance(Reply::Done) {
        Step::CherryPick { commits } => assert_eq!(commits, strings(&["c1", "c2", "c3"])),
        other => panic!("unexpected step {:?}", other),
    }
}

#[test]
fn a_failing_target_stops_the_finish() {
    let bt = feature(vec![target("^main$", Strategy::Merge), target("develop", Strategy::Merge)]);
    let mut flow = finish_task(bt, "login".to_string(), "feature/login".to_string());
    flow.advance(Reply::Done);
    flow.advance(Reply::Branches(strings(&["main", "develop", "feature/login"])));
    let step = flow.advance(Reply::Failed("cannot switch".to_string()));
    assert_eq!(finished(&step).unwrap(), (Ending::VcsFailed, "cannot switch".to_string()));
}

#[test]
fn track_reports_commits_ahead() {
    let mut flow = track_task(feature(vec![]), "login".to_string(), "feature/login".to_string());
    flow.advance(Reply::Done);
    let step = flow.advance(Reply::Branches(strings(&["main", "feature/login"])));
    assert!(matches!(step, Step::DiffCommits { ref source, ref target }
        if source == "feature/login" && target == "main"));
    let step = flow.advance(Reply::Commits(vec![]));
    assert_eq!(finished(&step).unwrap().0, Ending::NothingAhead);

    let mut flow = track_task(feature(vec![]), "login".to_string(), "feature/login".to_string());
    flow.advance(Reply::Done);
    flow.advance(Reply::Branches(strings(&["main", "feature/login"])));
    let step = flow.advance(Reply::Commits(strings(&["abc"])));
    assert!(matches!(step, Step::ShowLog { ref source, ref target }
        if source == "feature/login" && target == "main"));
    let step = flow.advance(Reply::Done);
    assert_eq!(finished(&step).unwrap().0, Ending::Completed);
}
