use git_flow::git::{split_text, Git};

fn strings(v: &[&str]) -> Vec<String> {
    v.iter().map(|s| s.to_string()).collect()
}

#[test]
fn splits_like_str_split() {
    assert_eq!(split_text("a\nb\n"), strings(&["a", "b", ""]));
    assert_eq!(split_text(""), strings(&[""]));
    assert_eq!(split_text("\n\nx"), strings(&["", "", "x"]));
}

#[test]
fn keeps_nonempty_lines() {
    assert_eq!(Git::lines("c3\nc2\n\nc1\n"), strings(&["c3", "c2", "c1"]));
    assert!(Git::lines("").is_empty());
}

#[test]
fn reads_local_branches() {
    let out = "  feature/login\n* main\n  release/1.0\n";
    assert_eq!(Git::get_local_branches(out), strings(&["feature/login", "main", "release/1.0"]));
}

#[test]
fn reads_remote_branches_of_one_remote() {
    let out = "  origin/HEAD -> origin/main\n  origin/dev\n  origin/main\n  upstream/main\n";
    assert_eq!(Git::get_remote_branches(out, "origin"), strings(&["dev", "main"]));
    assert_eq!(Git::get_remote_branches(out, "upstream"), strings(&["main"]));
    assert!(Git::get_remote_branches("", "origin").is_empty());
}

#[test]
fn local_branch_lines_lose_unicode_blanks() {
    assert_eq!(Git::get_local_branches("*\u{a0}main\u{3000}\n"), strings(&["main"]));
}
