use testito::models::{
    AttachmentTarget, FeedbackTarget, Kind, Result, ReviewKind, ReviewVerdict, RunMeta, Scope,
};
use testito::store::{
    attachment_target_from_column, column_exists, feedback_target_from_column, insert_columns,
    kind_from_column, metadata_updates, notes_need_kind, result_from_column,
    review_kind_from_column, review_verdict_from_column, run_filter, runs_migrations,
    scope_from_column, ColumnUpdate,
};

fn apply(row: &mut Vec<(String, String)>, updates: &[ColumnUpdate]) {
    for u in updates {
        for (c, v) in row.iter_mut() {
            if c == u.column {
                *v = u.value.clone();
            }
        }
    }
}

fn get<'a>(row: &'a [(String, String)], col: &str) -> &'a str {
    row.iter().find(|(c, _)| c == col).map(|(_, v)| v.as_str()).unwrap()
}

#[test]
fn insert_writes_given_fields_or_empty() {
    let meta = RunMeta {
        description: Some("first".to_string()),
        branch: Some("main".to_string()),
        pr_number: Some(9),
        ..RunMeta::default()
    };
    let c = insert_columns(&meta);
    assert_eq!(c.description, "first");
    assert_eq!(c.branch, "main");
    assert_eq!(c.commit_sha, "");
    assert_eq!(c.env, "");
    assert_eq!(c.pr_number, Some(9));
    assert_eq!(c.pr_url, "");
}

#[test]
fn upsert_keeps_fields_not_passed_again() {
    let first = RunMeta {
        description: Some("first".to_string()),
        branch: Some("main".to_string()),
        ..RunMeta::default()
    };
    let c = insert_columns(&first);
    let mut row = vec![
        ("description".to_string(), c.description),
        ("branch".to_string(), c.branch),
        ("commit_sha".to_string(), c.commit_sha),
    ];
    let second = RunMeta { commit_sha: Some("abc1234".to_string()), ..RunMeta::default() };
    let (updates, pr) = metadata_updates(&second);
    apply(&mut row, &updates);
    assert_eq!(get(&row, "description"), "first");
    assert_eq!(get(&row, "branch"), "main");
    assert_eq!(get(&row, "commit_sha"), "abc1234");
    assert_eq!(pr, None);
}

#[test]
fn upsert_with_empty_meta_writes_nothing() {
    let (updates, pr) = metadata_updates(&RunMeta::default());
    assert!(updates.is_empty());
    assert!(pr.is_none());
    let blank = RunMeta { branch: Some(String::new()), pr_number: Some(4), ..RunMeta::default() };
    let (updates, pr) = metadata_updates(&blank);
    assert!(updates.is_empty());
    assert_eq!(pr, Some(4));
}

#[test]
fn upsert_lists_columns_in_order() {
    let meta = RunMeta {
        description: Some("d".to_string()),
        env: Some("staging".to_string()),
        pr_url: Some("https://x/1".to_string()),
        ..RunMeta::default()
    };
    let (updates, _) = metadata_updates(&meta);
    let cols: Vec<&str> = updates.iter().map(|u| u.column).collect();
    assert_eq!(cols, vec!["description", "env", "pr_url"]);
    assert_eq!(updates[1].value, "staging");
}

#[test]
fn filter_needs_a_branch_or_a_pr() {
    assert!(run_filter(None, None).is_none());
    assert!(run_filter(Some(""), None).is_none());
    let f = run_filter(Some("main"), None).unwrap();
    assert_eq!(f.clause, " WHERE r.branch = ?1 ORDER BY r.started_at DESC");
    assert_eq!(f.branch.as_deref(), Some("main"));
    let g = run_filter(Some(""), Some(3)).unwrap();
    assert_eq!(g.clause, " WHERE r.pr_number = ?1 ORDER BY r.started_at DESC");
    assert!(g.branch.is_none());
    let h = run_filter(Some("main"), Some(3)).unwrap();
    assert_eq!(h.clause, " WHERE r.branch = ?1 AND r.pr_number = ?2 ORDER BY r.started_at DESC");
    assert_eq!(h.pr, Some(3));
}

#[test]
fn old_runs_table_gets_missing_columns() {
    let cols: Vec<String> = ["id", "name", "description", "branch", "started_at", "completed_at"]
        .iter()
        .map(|s| s.to_string())
        .collect();
    let m = runs_migrations(&cols);
    assert_eq!(
        m,
        vec![
            "ALTER TABLE runs ADD COLUMN commit_sha TEXT NOT NULL DEFAULT ''".to_string(),
            "ALTER TABLE runs ADD COLUMN env TEXT NOT NULL DEFAULT ''".to_string(),
            "ALTER TABLE runs ADD COLUMN url TEXT NOT NULL DEFAULT ''".to_string(),
            "ALTER TABLE runs ADD COLUMN workdir TEXT NOT NULL DEFAULT ''".to_string(),
            "ALTER TABLE runs ADD COLUMN pr_url TEXT NOT NULL DEFAULT ''".to_string(),
            "ALTER TABLE runs ADD COLUMN pr_number INTEGER".to_string(),
        ]
    );
    assert!(column_exists(&cols, "branch"));
    assert!(!column_exists(&cols, "env"));
}

#[test]
fn current_tables_need_no_migration() {
    let cols: Vec<String> = [
        "id", "name", "description", "branch", "commit_sha", "env", "url", "workdir", "pr_number",
        "pr_url", "started_at", "completed_at",
    ]
    .iter()
    .map(|s| s.to_string())
    .collect();
    assert!(runs_migrations(&cols).is_empty());
    let notes: Vec<String> = ["id", "run_id", "scope", "text", "reported_at"].iter().map(|s| s.to_string()).collect();
    assert!(notes_need_kind(&notes));
    let mut with_kind = notes.clone();
    with_kind.push("kind".to_string());
    assert!(!notes_need_kind(&with_kind));
}

#[test]
fn columns_decode_with_defaults() {
    assert_eq!(result_from_column("fail"), Result::Fail);
    assert_eq!(result_from_column("bogus"), Result::Skipped);
    assert_eq!(scope_from_column("out"), Scope::Out);
    assert_eq!(scope_from_column(""), Scope::In);
    assert_eq!(kind_from_column("bug"), Kind::Bug);
    assert_eq!(kind_from_column("weird"), Kind::Info);
    assert_eq!(feedback_target_from_column("test"), FeedbackTarget::Test);
    assert_eq!(feedback_target_from_column("run"), FeedbackTarget::Run);
    assert_eq!(feedback_target_from_column("x"), FeedbackTarget::Note);
    assert_eq!(review_kind_from_column("perf"), ReviewKind::Perf);
    assert_eq!(review_kind_from_column("x"), ReviewKind::Other);
    assert_eq!(review_verdict_from_column("blocking"), ReviewVerdict::Blocking);
    assert_eq!(review_verdict_from_column("x"), ReviewVerdict::Advisory);
    assert_eq!(attachment_target_from_column("step"), AttachmentTarget::Step);
    assert_eq!(attachment_target_from_column("note"), AttachmentTarget::Note);
}

#[test]
fn written_values_read_back() {
    for r in [Result::Pass, Result::Fail, Result::Warning, Result::Skipped] {
        assert_eq!(result_from_column(r.as_str()), r);
    }
    for k in [Kind::Bug, Kind::Polish, Kind::Question, Kind::Info] {
        assert_eq!(kind_from_column(k.as_str()), k);
    }
    for v in [ReviewVerdict::Clean, ReviewVerdict::Advisory, ReviewVerdict::Blocking] {
        assert_eq!(review_verdict_from_column(v.as_str()), v);
    }
}
