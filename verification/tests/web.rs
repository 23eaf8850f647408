use testito::models::{FeedbackTarget, Kind, Result, Run, RunNote, RunStep, RunTest, Scope};
use testito::runpage::TestSteps;
use testito::time::Timestamp;
use testito::web::{
    check_feedback_form, check_feedback_target, count_kinds, export_disposition, export_filename,
    other_runs, run_row, steps_for_named_test, test_rollups, AppError, FeedbackForm,
    FeedbackRequest,
};

fn step(name: &str, attempt: i64, result: Result) -> RunStep {
    RunStep {
        id: 0,
        run_test_id: 0,
        name: name.to_string(),
        attempt,
        result,
        note: String::new(),
        reported_at: String::new(),
    }
}

fn run(id: i64, name: &str) -> Run {
    Run {
        id,
        name: name.to_string(),
        description: String::new(),
        branch: String::new(),
        commit_sha: String::new(),
        env: String::new(),
        url: String::new(),
        workdir: String::new(),
        pr_number: None,
        pr_url: String::new(),
        started_at: "2026-04-28T10:00:00Z".to_string(),
        completed_at: None,
        test_count: 0,
        step_count: 0,
        note_count: 0,
    }
}

fn test_with(id: i64, name: &str, steps: Vec<RunStep>) -> TestSteps {
    TestSteps {
        test: RunTest { id, run_id: 1, name: name.to_string(), first_reported_at: String::new() },
        steps,
    }
}

fn note(kind: Kind) -> RunNote {
    RunNote { id: 0, run_id: 1, scope: Scope::In, kind, text: String::new(), reported_at: String::new() }
}

fn form(kind: &str, target_id: i64, text: &str) -> FeedbackForm {
    FeedbackForm { run_id: 4, target_kind: kind.to_string(), target_id, text: text.to_string() }
}

const NOW: Timestamp = Timestamp { secs: 1_777_374_000, nanos: 0 };

#[test]
fn refusals_answer_with_status_and_text() {
    assert_eq!(
        AppError::NotFound("run 3".to_string()).into_response(),
        (404, "run 3 not found".to_string())
    );
    assert_eq!(
        AppError::Other("disk full".to_string()).into_response(),
        (500, "error: disk full".to_string())
    );
}

#[test]
fn feedback_form_is_trimmed_and_parsed() {
    let q = check_feedback_form(&form("Test", 9, "  looks wrong \n")).ok().unwrap();
    assert_eq!(q.target_kind, FeedbackTarget::Test);
    assert_eq!(q.text, "looks wrong");
    assert_eq!(q.run_id, 4);
    assert_eq!(q.target_id, 9);
}

#[test]
fn feedback_form_refusals() {
    match check_feedback_form(&form("step", 9, "x")) {
        Err(AppError::Other(m)) => {
            assert_eq!(m, "invalid feedback target 'step' — use note, test, or run")
        }
        _ => panic!("expected a refusal"),
    }
    match check_feedback_form(&form("note", 9, "   ")) {
        Err(AppError::Other(m)) => assert_eq!(m, "feedback text required"),
        _ => panic!("expected a refusal"),
    }
}

#[test]
fn feedback_target_must_belong_to_the_run() {
    let on_run = |id: i64| FeedbackRequest {
        run_id: 4,
        target_kind: FeedbackTarget::Run,
        target_id: id,
        text: "x".to_string(),
    };
    assert!(check_feedback_target(&on_run(4), false).is_ok());
    match check_feedback_target(&on_run(5), true) {
        Err(AppError::NotFound(w)) => assert_eq!(w, "run 5 in run 4"),
        _ => panic!("expected not found"),
    }
    let on_note = FeedbackRequest {
        run_id: 4,
        target_kind: FeedbackTarget::Note,
        target_id: 12,
        text: "x".to_string(),
    };
    assert!(check_feedback_target(&on_note, true).is_ok());
    match check_feedback_target(&on_note, false) {
        Err(AppError::NotFound(w)) => assert_eq!(w, "note 12 in run 4"),
        _ => panic!("expected not found"),
    }
}

#[test]
fn run_rows_count_steps_and_kinds() {
    let tests = vec![
        test_with(1, "a", vec![step("x", 1, Result::Fail), step("x", 2, Result::Pass)]),
        test_with(2, "b", vec![step("y", 1, Result::Warning)]),
    ];
    let notes = vec![note(Kind::Bug), note(Kind::Bug), note(Kind::Question)];
    let row = run_row(&run(1, "smoke"), &tests, &notes, NOW);
    assert_eq!(row.run.name, "smoke");
    assert_eq!(row.relative_started, "1h ago");
    assert_eq!(row.rollup, Some(Result::Warning));
    assert_eq!((row.counts.pass, row.counts.fail, row.counts.warning, row.counts.skipped), (1, 1, 1, 0));
    assert_eq!((row.kind_counts.bug, row.kind_counts.polish, row.kind_counts.question, row.kind_counts.info), (2, 0, 1, 0));
    let k = count_kinds(&[]);
    assert_eq!(k.total(), 0);
}

#[test]
fn other_runs_leave_out_the_current_one() {
    let runs = vec![run(1, "a"), run(2, "b"), run(3, "c")];
    let others: Vec<i64> = other_runs(&runs, 2).iter().map(|r| r.id).collect();
    assert_eq!(others, vec![1, 3]);
}

#[test]
fn test_rollups_and_named_steps() {
    let tests = vec![
        test_with(1, "login", vec![step("x", 1, Result::Fail)]),
        test_with(2, "logout", vec![]),
    ];
    let r = test_rollups(&tests);
    assert_eq!(r.len(), 2);
    assert_eq!(r[0].name, "login");
    assert_eq!(r[0].rollup, Some(Result::Fail));
    assert_eq!(r[1].rollup, None);
    let s = steps_for_named_test(&tests, "login");
    assert_eq!(s.len(), 1);
    assert_eq!(s[0].name, "x");
    assert!(steps_for_named_test(&tests, "missing").is_empty());
}

#[test]
fn export_file_name_replaces_slashes() {
    assert_eq!(export_filename("auth/smoke/1"), "auth-smoke-1.md");
    assert_eq!(export_disposition("a/b"), "attachment; filename=\"a-b.md\"");
}

#[test]
fn html_escaping_replaces_markup_characters() {
    assert_eq!(
        testito::web::escape_html("<a href=\"x\">Tom & 'Jerry'</a>"),
        "&lt;a href=&quot;x&quot;&gt;Tom &amp; &#x27;Jerry&#x27;&lt;/a&gt;"
    );
    assert_eq!(testito::web::escape_html("plain"), "plain");
}

#[test]
fn out_of_scope_notes_are_counted() {
    let mut notes = vec![note(Kind::Bug), note(Kind::Info)];
    notes[1].scope = Scope::Out;
    assert_eq!(testito::runpage::count_out_of_scope(&notes), 1);
    assert_eq!(testito::runpage::count_out_of_scope(&[]), 0);
}
