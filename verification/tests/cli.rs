use testito::cli::{
    attachments_suffix, end_outcome, jot_message, note_message, plural, report_message,
    run_rollup, start_message, MetaArgs,
};
use testito::auto::AutoMeta;
use testito::models::{Kind, Result, RunStep, RunTest, Scope};
use testito::runpage::TestSteps;

fn step(name: &str, attempt: i64, result: Result) -> RunStep {
    RunStep {
        id: 0,
        run_test_id: 0,
        name: name.to_string(),
        attempt,
        result,
        note: String::new(),
        reported_at: String::new(),
    }
}

fn test_with(name: &str, steps: Vec<RunStep>) -> TestSteps {
    TestSteps {
        test: RunTest { id: 1, run_id: 1, name: name.to_string(), first_reported_at: String::new() },
        steps,
    }
}

#[test]
fn start_prints_run_and_id() {
    assert_eq!(start_message("smoke", 3), "run smoke (id 3) ready");
}

#[test]
fn report_line_names_result_run_test_step_and_attempt() {
    assert_eq!(
        report_message(Result::Warning, "r1", "login", 12, 2, 0),
        "Warning · run=r1 test=login step #12 attempt=2"
    );
    assert_eq!(
        report_message(Result::Pass, "r1", "login", 13, 1, 2),
        "Pass · run=r1 test=login step #13 attempt=1 · 📎 2 screenshots"
    );
}

#[test]
fn attachment_suffix_counts_screenshots() {
    assert_eq!(attachments_suffix(0), "");
    assert_eq!(attachments_suffix(1), " · 📎 1 screenshot");
    assert_eq!(attachments_suffix(3), " · 📎 3 screenshots");
    assert_eq!(plural(1), "");
    assert_eq!(plural(0), "s");
    assert_eq!(plural(2), "s");
}

#[test]
fn note_and_jot_lines() {
    assert_eq!(note_message(5, "r", Kind::Bug, Scope::Out, 0), "note #5 on r (🐛 Bug out)");
    assert_eq!(
        jot_message(6, "r", Kind::Info, 1),
        "jotted #6 on r (ℹ️ Info) · 📎 1 screenshot"
    );
}

#[test]
fn end_nudges_without_findings_and_fails_on_request() {
    let o = end_outcome("r", Some(Result::Fail), 0, true);
    assert!(o.exit_failure);
    assert_eq!(o.summary, "run r completed · Fail · 📋 0 findings");
    let nudge = o.nudge.unwrap();
    assert!(nudge.starts_with("\n⚠  You filed 0 out-of-scope observations on this run.\n"));
    assert!(nudge.contains("     testito jot --run \"r\" --text \"...\"\n"));
    assert!(nudge.ends_with("(the user has to ask again).\n\n"));
}

#[test]
fn end_without_steps_and_one_finding() {
    let o = end_outcome("r", None, 1, true);
    assert!(!o.exit_failure);
    assert!(o.nudge.is_none());
    assert_eq!(o.summary, "run r completed · no steps reported · 📋 1 finding");
    let p = end_outcome("r", Some(Result::Fail), 2, false);
    assert!(!p.exit_failure);
}

#[test]
fn meta_args_carry_over() {
    let m = MetaArgs {
        branch: Some("main".to_string()),
        commit: Some("abc1234".to_string()),
        env: None,
        url: Some("http://localhost:3000".to_string()),
        workdir: None,
        pr: Some(12),
    }
    .into_meta(Some("desc".to_string()), AutoMeta::default());
    assert_eq!(m.description.as_deref(), Some("desc"));
    assert_eq!(m.branch.as_deref(), Some("main"));
    assert_eq!(m.commit_sha.as_deref(), Some("abc1234"));
    assert!(m.env.is_none());
    assert_eq!(m.url.as_deref(), Some("http://localhost:3000"));
    assert!(m.workdir.is_none() && m.pr_url.is_none());
    assert_eq!(m.pr_number, Some(12));
}

#[test]
fn unset_flags_are_filled_from_detection_and_given_flags_win() {
    let detected = AutoMeta {
        branch: Some("feature/x".to_string()),
        commit: Some("def5678".to_string()),
        workdir: Some("wt · zellij:dev".to_string()),
    };
    let m = MetaArgs { commit: Some("abc1234".to_string()), ..MetaArgs::default() }
        .into_meta(None, detected);
    assert_eq!(m.branch.as_deref(), Some("feature/x"));
    assert_eq!(m.commit_sha.as_deref(), Some("abc1234"));
    assert_eq!(m.workdir.as_deref(), Some("wt · zellij:dev"));
    assert!(m.description.is_none() && m.pr_number.is_none());
}

#[test]
fn run_rollup_spans_all_tests() {
    let tests = vec![
        test_with("a", vec![step("x", 1, Result::Pass)]),
        test_with("b", vec![step("y", 1, Result::Warning)]),
    ];
    assert_eq!(run_rollup(&tests), Some(Result::Warning));
    assert_eq!(run_rollup(&[]), None);
}
