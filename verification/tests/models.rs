use testito::models::RunMeta;
use testito::models::{rollup, Result, RunStep, Scope};

fn step(name: &str, attempt: i64, result: Result) -> RunStep {
    RunStep {
        id: 0,
        run_test_id: 0,
        name: name.to_string(),
        attempt,
        result,
        note: String::new(),
        reported_at: String::new(),
    }
}

#[test]
fn result_parse_accepts_aliases() {
    assert_eq!(Result::parse("pass").unwrap(), Result::Pass);
    assert_eq!(Result::parse("PASS").unwrap(), Result::Pass);
    assert_eq!(Result::parse("passed").unwrap(), Result::Pass);
    assert_eq!(Result::parse("ok").unwrap(), Result::Pass);
    assert_eq!(Result::parse("fail").unwrap(), Result::Fail);
    assert_eq!(Result::parse("failed").unwrap(), Result::Fail);
    assert_eq!(Result::parse("warning").unwrap(), Result::Warning);
    assert_eq!(Result::parse("warn").unwrap(), Result::Warning);
    assert_eq!(Result::parse("skip").unwrap(), Result::Skipped);
    assert_eq!(Result::parse("skipped").unwrap(), Result::Skipped);
}

#[test]
fn result_parse_rejects_garbage() {
    let err = Result::parse("whatever").unwrap_err().to_string();
    assert!(err.contains("invalid result"), "got: {err}");
}

#[test]
fn scope_parse_accepts_aliases() {
    assert_eq!(Scope::parse("in").unwrap(), Scope::In);
    assert_eq!(Scope::parse("in-scope").unwrap(), Scope::In);
    assert_eq!(Scope::parse("InScope").unwrap(), Scope::In);
    assert_eq!(Scope::parse("out").unwrap(), Scope::Out);
    assert_eq!(Scope::parse("out-of-scope").unwrap(), Scope::Out);
    assert!(Scope::parse("sideways").is_err());
}

#[test]
fn rollup_none_when_empty() {
    assert!(rollup(&[]).is_none());
}

#[test]
fn rollup_pass_when_all_pass() {
    let s = vec![step("a", 1, Result::Pass), step("b", 1, Result::Pass)];
    assert_eq!(rollup(&s), Some(Result::Pass));
}

#[test]
fn rollup_fail_dominates_pass() {
    let s = vec![
        step("a", 1, Result::Pass),
        step("b", 1, Result::Fail),
        step("c", 1, Result::Pass),
    ];
    assert_eq!(rollup(&s), Some(Result::Fail));
}

#[test]
fn rollup_warning_when_no_fails() {
    let s = vec![step("a", 1, Result::Pass), step("b", 1, Result::Warning)];
    assert_eq!(rollup(&s), Some(Result::Warning));
}

#[test]
fn rollup_uses_latest_attempt_per_step() {
    // Same step name, attempt 1 fail, attempt 2 pass — overall should be Pass.
    let s = vec![
        step("submit", 1, Result::Fail),
        step("submit", 2, Result::Pass),
        step("other", 1, Result::Pass),
    ];
    assert_eq!(rollup(&s), Some(Result::Pass));
}

#[test]
fn rollup_skipped_only_when_nothing_else() {
    let s = vec![step("blocked", 1, Result::Skipped)];
    assert_eq!(rollup(&s), Some(Result::Skipped));
}

#[test]
fn run_meta_is_empty_looks_at_the_five_text_fields() {
    assert!(RunMeta::default().is_empty());
    assert!(!RunMeta { branch: Some(String::new()), ..RunMeta::default() }.is_empty());
    assert!(RunMeta { workdir: Some("wt".to_string()), pr_number: Some(3), ..RunMeta::default() }.is_empty());
}

#[test]
fn rollup_ignores_order_and_superseded_reports() {
    let steps = vec![
        step("a", 1, Result::Fail),
        step("a", 2, Result::Pass),
        step("b", 1, Result::Warning),
    ];
    let reordered = vec![steps[2].clone(), steps[1].clone(), steps[0].clone()];
    assert_eq!(rollup(&steps), Some(Result::Warning));
    assert_eq!(rollup(&reordered), Some(Result::Warning));
    let mut with_old = steps.clone();
    with_old.push(step("b", 0, Result::Fail));
    assert_eq!(rollup(&with_old), Some(Result::Warning));
}
