use git_flow::config::{BranchType, Command};
use git_flow::hook::{command_to_string, exec_hook, hook_args, Hook};

fn strings(v: &[&str]) -> Vec<String> {
    v.iter().map(|s| s.to_string()).collect()
}

#[test]
fn arguments_take_the_short_name() {
    let c = Command { command: "echo".to_string(), args: strings(&["{new_branch}", "x-{new_branch}.log", "plain"]) };
    assert_eq!(hook_args(&c, "login"), strings(&["login", "x-login.log", "plain"]));
}

#[test]
fn hooks_are_looked_up_by_point() {
    let bt = BranchType {
        name: "feature".to_string(),
        create: "feature/{new_branch}".to_string(),
        from: "main".to_string(),
        to: vec![],
        before_start: Some(Command { command: "lint".to_string(), args: strings(&["{new_branch}"]) }),
        after_start: None,
        before_finish: None,
        after_finish: Some(Command { command: "notify".to_string(), args: vec![] }),
        before_drop: None,
        after_drop: None,
    };
    let c = exec_hook(&bt, Hook::BeforeStart, "login").unwrap();
    assert_eq!(c.command, "lint");
    assert_eq!(c.args, strings(&["login"]));
    assert_eq!(exec_hook(&bt, Hook::AfterFinish, "login").unwrap().command, "notify");
    assert!(exec_hook(&bt, Hook::AfterStart, "login").is_none());
    assert!(exec_hook(&bt, Hook::BeforeDrop, "login").is_none());
}

#[test]
fn commands_print_on_one_line() {
    assert_eq!(command_to_string(&None), "");
    let c = Command { command: "echo".to_string(), args: strings(&["a", "b c"]) };
    assert_eq!(command_to_string(&Some(c)), "echo a b c");
    let c = Command { command: "ls".to_string(), args: vec![] };
    assert_eq!(command_to_string(&Some(c)), "ls ");
}
