use git_flow::config::{
    create_is_valid, no_duplicate_branch_type, target_is_valid_regex, validate_config, BranchType,
    Config, ConfigError, Strategy, TargetBranch,
};
use git_flow::template::{count_placeholders, substitute};

fn branch_type(name: &str, create: &str, targets: &[&str]) -> BranchType {
    BranchType {
        name: name.to_string(),
        create: create.to_string(),
        from: "main".to_string(),
        to: targets
            .iter()
            .map(|t| TargetBranch { name: t.to_string(), strategy: Strategy::Merge })
            .collect(),
        before_start: None,
        after_start: None,
        before_finish: None,
        after_finish: None,
        before_drop: None,
        after_drop: None,
    }
}

fn config(bts: Vec<BranchType>) -> Config {
    Config { timeout: None, branch_types: bts }
}

#[test]
fn counts_placeholders() {
    assert_eq!(count_placeholders("feature/{new_branch}"), 1);
    assert_eq!(count_placeholders("feature/"), 0);
    assert_eq!(count_placeholders("{new_branch}/{new_branch}"), 2);
    assert_eq!(count_placeholders("{new_branch"), 0);
    assert_eq!(count_placeholders(""), 0);
}

#[test]
fn substitutes_the_first_placeholder() {
    assert_eq!(substitute("feature/{new_branch}", "login"), "feature/login");
    assert_eq!(substitute("{new_branch}-fix", "x"), "x-fix");
    assert_eq!(substitute("plain", "x"), "plain");
    assert_eq!(substitute("a{new_branch}b{new_branch}", "x"), "axb{new_branch}");
    assert_eq!(substitute("été/{new_branch}", "ü"), "été/ü");
}

#[test]
fn template_with_one_placeholder_is_valid() {
    let c = config(vec![branch_type("feature", "feature/{new_branch}", &["main"])]);
    assert!(create_is_valid(&c).is_ok());
    assert!(validate_config(&c).is_ok());
}

#[test]
fn template_without_placeholder_fails() {
    let c = config(vec![
        branch_type("feature", "feature/{new_branch}", &[]),
        branch_type("hotfix", "hotfix/", &[]),
    ]);
    match validate_config(&c) {
        Err(ConfigError::InvalidCreate(names)) => assert_eq!(names, vec!["hotfix".to_string()]),
        other => panic!("unexpected {:?}", other),
    }
}

#[test]
fn template_with_two_placeholders_fails() {
    let c = config(vec![
        branch_type("a", "{new_branch}/{new_branch}", &[]),
        branch_type("b", "b/{new_branch}", &[]),
        branch_type("c", "c", &[]),
    ]);
    match create_is_valid(&c) {
        Err(ConfigError::InvalidCreate(names)) => {
            assert_eq!(names, vec!["a".to_string(), "c".to_string()])
        }
        other => panic!("unexpected {:?}", other),
    }
}

#[test]
fn duplicate_names_and_templates_fail() {
    let c = config(vec![
        branch_type("feature", "feature/{new_branch}", &[]),
        branch_type("feature", "feat/{new_branch}", &[]),
    ]);
    match no_duplicate_branch_type(&c) {
        Err(ConfigError::DuplicateName(n)) => assert_eq!(n, "feature"),
        other => panic!("unexpected {:?}", other),
    }
    let c = config(vec![
        branch_type("feature", "feature/{new_branch}", &[]),
        branch_type("feat", "feature/{new_branch}", &[]),
    ]);
    match validate_config(&c) {
        Err(ConfigError::DuplicateCreate(t)) => assert_eq!(t, "feature/{new_branch}"),
        other => panic!("unexpected {:?}", other),
    }
}

#[test]
fn target_pattern_must_compile() {
    let c = config(vec![branch_type("release", "release/{new_branch}", &["main", "release/("])]);
    match target_is_valid_regex(&c) {
        Err(ConfigError::InvalidTarget(p)) => assert_eq!(p, "release/("),
        other => panic!("unexpected {:?}", other),
    }
    assert!(matches!(validate_config(&c), Err(ConfigError::InvalidTarget(_))));
}

#[test]
fn duplicates_are_reported_before_other_faults() {
    let c = config(vec![
        branch_type("x", "x", &["("]),
        branch_type("x", "y", &[]),
    ]);
    assert!(matches!(validate_config(&c), Err(ConfigError::DuplicateName(_))));
}
