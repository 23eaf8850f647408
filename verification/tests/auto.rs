use testito::auto::{detect, git_branch, git_output, workdir_label, zellij_session, GitProbe};

#[test]
fn git_output_is_trimmed_and_blank_is_nothing() {
    assert_eq!(git_output(true, Some("main\n".to_string())).as_deref(), Some("main"));
    assert_eq!(git_output(true, Some("  \n".to_string())), None);
    assert_eq!(git_output(false, Some("main".to_string())), None);
    assert_eq!(git_output(true, None), None);
}

#[test]
fn detached_head_is_no_branch() {
    assert_eq!(git_branch(Some("HEAD".to_string())), None);
    assert_eq!(git_branch(Some("feature/x".to_string())).as_deref(), Some("feature/x"));
}

#[test]
fn workdir_joins_worktree_and_zellij() {
    assert_eq!(workdir_label(None, None), None);
    assert_eq!(workdir_label(Some("wt".to_string()), None).as_deref(), Some("wt"));
    assert_eq!(workdir_label(None, Some("s1".to_string())).as_deref(), Some("zellij:s1"));
    assert_eq!(
        workdir_label(Some("wt".to_string()), Some("s1".to_string())).as_deref(),
        Some("wt · zellij:s1")
    );
    assert_eq!(zellij_session(Some("  s1 ".to_string())).as_deref(), Some("s1"));
    assert_eq!(zellij_session(Some("   ".to_string())), None);
}

#[test]
fn detect_combines_the_probe() {
    let m = detect(GitProbe {
        abbrev_ref: Some("HEAD".to_string()),
        short_sha: Some("abc1234".to_string()),
        linked_worktree: Some("wt".to_string()),
        zellij_session_name: Some(" dev ".to_string()),
    });
    assert_eq!(m.branch, None);
    assert_eq!(m.commit.as_deref(), Some("abc1234"));
    assert_eq!(m.workdir.as_deref(), Some("wt · zellij:dev"));
}
