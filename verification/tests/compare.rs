use testito::compare::{compare_rows, step_diff_rows, TestRollup};
use testito::models::{Result as TestResult, RunStep};

fn step(name: &str, attempt: i64, result: TestResult) -> RunStep {
    RunStep {
        id: 0,
        run_test_id: 0,
        name: name.to_string(),
        attempt,
        result,
        note: String::new(),
        reported_at: String::new(),
    }
}

#[test]
fn step_diff_uses_latest_attempt_per_side() {
    // A: submit fail → pass. B: submit pass.
    // Latest on both sides is Pass → not a diff.
    let a = vec![
        step("submit", 1, TestResult::Fail),
        step("submit", 2, TestResult::Pass),
    ];
    let b = vec![step("submit", 1, TestResult::Pass)];
    let rows = step_diff_rows(&a, &b);
    assert_eq!(rows.len(), 1);
    let r = &rows[0];
    assert_eq!(r.name, "submit");
    assert_eq!(r.a_status, Some(TestResult::Pass));
    assert_eq!(r.b_status, Some(TestResult::Pass));
    assert_eq!(r.a_attempt, 2);
    assert_eq!(r.b_attempt, 1);
    assert!(!r.differs);
}

#[test]
fn step_diff_marks_one_sided_steps() {
    let a = vec![step("only-a", 1, TestResult::Pass)];
    let b = vec![step("only-b", 1, TestResult::Pass)];
    let rows = step_diff_rows(&a, &b);
    assert_eq!(rows.len(), 2);
    let row_a = rows.iter().find(|r| r.name == "only-a").unwrap();
    assert_eq!(row_a.a_status, Some(TestResult::Pass));
    assert_eq!(row_a.b_status, None);
    assert_eq!(row_a.b_attempt, 0);
    assert!(row_a.differs);
    let row_b = rows.iter().find(|r| r.name == "only-b").unwrap();
    assert_eq!(row_b.a_status, None);
    assert_eq!(row_b.a_attempt, 0);
    assert_eq!(row_b.b_status, Some(TestResult::Pass));
    assert!(row_b.differs);
}

#[test]
fn step_diff_flags_status_change() {
    let a = vec![step("nav", 1, TestResult::Warning)];
    let b = vec![step("nav", 1, TestResult::Pass)];
    let rows = step_diff_rows(&a, &b);
    assert_eq!(rows.len(), 1);
    assert!(rows[0].differs);
}

#[test]
fn step_diff_empty_both_sides() {
    let rows = step_diff_rows(&[], &[]);
    assert!(rows.is_empty());
}

#[test]
fn step_diff_rows_come_out_in_name_order() {
    let a = vec![step("zeta", 1, TestResult::Pass), step("alpha", 1, TestResult::Fail)];
    let b = vec![step("mid", 3, TestResult::Skipped), step("alpha", 2, TestResult::Fail)];
    let rows = step_diff_rows(&a, &b);
    let names: Vec<&str> = rows.iter().map(|r| r.name.as_str()).collect();
    assert_eq!(names, vec!["alpha", "mid", "zeta"]);
    assert_eq!(rows[0].a_attempt, 1);
    assert_eq!(rows[0].b_attempt, 2);
    assert!(!rows[0].differs);
    assert_eq!(rows[1].b_status, Some(TestResult::Skipped));
}

#[test]
fn step_diff_first_of_equal_attempts_counts() {
    let a = vec![step("s", 2, TestResult::Warning), step("s", 2, TestResult::Pass), step("s", 1, TestResult::Fail)];
    let rows = step_diff_rows(&a, &[]);
    assert_eq!(rows[0].a_status, Some(TestResult::Warning));
    assert_eq!(rows[0].a_attempt, 2);
}

fn rollup_of(name: &str, rollup: Option<TestResult>) -> TestRollup {
    TestRollup { name: name.to_string(), rollup }
}

#[test]
fn compare_rows_merge_test_names_in_order() {
    let a = vec![rollup_of("login flow", Some(TestResult::Pass)), rollup_of("cart", Some(TestResult::Fail))];
    let b = vec![rollup_of("cart", Some(TestResult::Fail)), rollup_of("a/b?", None)];
    let rows = compare_rows(&a, &b);
    let names: Vec<&str> = rows.iter().map(|r| r.test_name.as_str()).collect();
    assert_eq!(names, vec!["a/b?", "cart", "login flow"]);
    assert_eq!(rows[0].test_name_encoded, "a%2Fb%3F");
    assert_eq!(rows[0].a_status, None);
    assert_eq!(rows[0].b_status, None);
    assert!(!rows[0].differs);
    assert!(!rows[1].differs);
    assert_eq!(rows[2].test_name_encoded, "login%20flow");
    assert_eq!(rows[2].a_status, Some(TestResult::Pass));
    assert_eq!(rows[2].b_status, None);
    assert!(rows[2].differs);
}

#[test]
fn compare_rows_encode_non_ascii_as_utf8_bytes() {
    let rows = compare_rows(&[rollup_of("café", None)], &[]);
    assert_eq!(rows[0].test_name_encoded, "caf%C3%A9");
}
