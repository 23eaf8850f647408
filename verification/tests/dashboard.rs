use testito::dashboard::render_markdown_export;
use testito::models::{
    Kind, Result, Review, ReviewKind, ReviewVerdict, Run, RunNote, RunStep, RunTest, Scope,
};
use testito::runpage::{assemble_run_body, TestSteps};
use testito::time::Timestamp;

fn step(id: i64, name: &str, attempt: i64, result: Result, note: &str) -> RunStep {
    RunStep {
        id,
        run_test_id: 0,
        name: name.to_string(),
        attempt,
        result,
        note: note.to_string(),
        reported_at: "2026-04-28T10:00:00Z".to_string(),
    }
}

fn note(id: i64, scope: Scope, kind: Kind, text: &str) -> RunNote {
    RunNote {
        id,
        run_id: 1,
        scope,
        kind,
        text: text.to_string(),
        reported_at: "2026-04-28T10:00:00Z".to_string(),
    }
}

fn sample_run() -> Run {
    Run {
        id: 1,
        name: "smoke".to_string(),
        description: "Cart regression".to_string(),
        branch: "main".to_string(),
        commit_sha: "abc1234".to_string(),
        env: String::new(),
        url: "http://localhost:3000".to_string(),
        workdir: String::new(),
        pr_number: Some(7),
        pr_url: "https://github.com/o/r/pull/7".to_string(),
        started_at: "2026-04-28T10:00:00Z".to_string(),
        completed_at: None,
        test_count: 2,
        step_count: 3,
        note_count: 2,
    }
}

fn sample_tests() -> Vec<TestSteps> {
    vec![
        TestSteps {
            test: RunTest { id: 10, run_id: 1, name: "checkout".to_string(), first_reported_at: String::new() },
            steps: vec![
                step(100, "submit", 1, Result::Fail, "webhook 500\nretry later"),
                step(101, "submit", 2, Result::Pass, ""),
            ],
        },
        TestSteps {
            test: RunTest { id: 11, run_id: 1, name: "cart".to_string(), first_reported_at: String::new() },
            steps: vec![step(102, "add", 1, Result::Pass, "")],
        },
    ]
}

fn sample_notes() -> Vec<RunNote> {
    vec![
        note(200, Scope::Out, Kind::Info, "Footer says 2024"),
        note(201, Scope::In, Kind::Bug, "Totals off\nby one"),
    ]
}

fn sample_reviews() -> Vec<Review> {
    vec![Review {
        id: 300,
        run_id: 1,
        kind: ReviewKind::Security,
        verdict: ReviewVerdict::Clean,
        text: "No issues".to_string(),
        created_at: "2026-04-28T10:00:00Z".to_string(),
    }]
}

// One hour after the run started.
const NOW: Timestamp = Timestamp { secs: 1_777_374_000, nanos: 0 };

#[test]
fn run_body_counts_rolls_up_and_sorts_notes() {
    let run = sample_run();
    let b = assemble_run_body(&run, &sample_tests(), &sample_notes(), &sample_reviews(), &[], &[], NOW);
    assert_eq!(b.counts.pass, 2);
    assert_eq!(b.counts.fail, 1);
    assert_eq!(b.counts.warning, 0);
    assert_eq!(b.rollup, Some(Result::Pass));
    assert_eq!(b.findings, 1);
    assert_eq!(b.kind_counts.bug, 1);
    assert_eq!(b.kind_counts.info, 1);
    assert_eq!(b.notes[0].note.id, 201);
    assert_eq!(b.notes[1].note.id, 200);
    assert_eq!(b.notes[0].copy_text, "[Bug] Totals off\nby one");
    assert_eq!(b.tests[0].rollup, Some(Result::Pass));
    assert_eq!(b.tests[0].rollup_str, "pass");
    assert_eq!(b.relative_started, "1h ago");
    assert!(b.relative_completed.is_none());
}

#[test]
fn pr_summary_leads_with_rollup_then_findings_then_failures() {
    let run = sample_run();
    let b = assemble_run_body(&run, &sample_tests(), &sample_notes(), &sample_reviews(), &[], &[], NOW);
    let expected = [
        "## QA: smoke  [Pass]\n",
        "\n_Cart regression_\n",
        "\nbranch `main` · commit `abc1234` · PR [#7](https://github.com/o/r/pull/7) · url <http://localhost:3000>\n",
        "\n**Steps**: 2 pass · 1 fail · 0 warn · 0 skip\n",
        "\n### Reviews (1)\n\n",
        "- 🔒 **Security — Clean**: No issues\n",
        "\n### Findings (2)\n\n",
        "- 🐛 **Bug**: Totals off by one\n",
        "- ℹ️ **Info**: Footer says 2024\n",
    ].concat();
    assert_eq!(b.pr_summary_md, expected);
}

#[test]
fn pr_summary_lists_only_steps_whose_latest_attempt_failed() {
    let mut run = sample_run();
    run.description = String::new();
    run.pr_number = None;
    run.branch = String::new();
    run.commit_sha = String::new();
    run.url = String::new();
    let tests = vec![
        TestSteps {
            test: RunTest { id: 10, run_id: 1, name: "t".to_string(), first_reported_at: String::new() },
            steps: vec![
                step(100, "a", 1, Result::Fail, ""),
                step(101, "a", 2, Result::Pass, ""),
                step(102, "b", 1, Result::Pass, ""),
                step(103, "b", 2, Result::Fail, "still broken\n"),
            ],
        },
    ];
    let b = assemble_run_body(&run, &tests, &[], &[], &[], &[], NOW);
    let expected = [
        "## QA: smoke  [Fail]\n",
        "\n**Steps**: 2 pass · 2 fail · 0 warn · 0 skip\n",
        "\n### Failures (1)\n\n",
        "- **t** / b _(attempt 2)_: still broken\n",
    ].concat();
    assert_eq!(b.pr_summary_md, expected);

    let fixed = vec![TestSteps {
        test: RunTest { id: 10, run_id: 1, name: "t".to_string(), first_reported_at: String::new() },
        steps: vec![step(100, "a", 1, Result::Fail, ""), step(101, "a", 2, Result::Pass, "")],
    }];
    let b = assemble_run_body(&run, &fixed, &[], &[], &[], &[], NOW);
    assert!(!b.pr_summary_md.contains("### Failures"));
}

#[test]
fn pr_summary_links_only_http_pr_urls() {
    let mut run = sample_run();
    run.pr_url = "javascript:alert(1)".to_string();
    run.description = String::new();
    let b = assemble_run_body(&run, &[], &[], &[], &[], &[], NOW);
    let expected = [
        "## QA: smoke  [no steps]\n",
        "\nbranch `main` · commit `abc1234` · PR `#7` · url <http://localhost:3000>\n",
        "\n**Steps**: 0 pass · 0 fail · 0 warn · 0 skip\n",
    ].concat();
    assert_eq!(b.pr_summary_md, expected);
}

#[test]
fn markdown_export_lists_failures_before_tests() {
    let run = sample_run();
    let b = assemble_run_body(&run, &sample_tests(), &sample_notes(), &sample_reviews(), &[], &[], NOW);
    let expected = [
        "# Run: smoke\n\n",
        "> Cart regression\n\n",
        "- **Branch**: `main`\n- **Commit**: `abc1234`\n- **PR**: `#7`\n- **URL**: `http://localhost:3000`\n\n",
        "## Reviews (1)\n\n### 🔒 Security — Clean\n\nNo issues\n\n",
        "- **Started**: 2026-04-28T10:00:00Z\n",
        "- **Status**: in progress\n",
        "- **Rollup**: Pass\n",
        "- **Counts**: 2 pass · 1 fail · 0 warn · 0 skip\n",
        "- **Findings**: 📋 1 observation filed outside the test brief — review them.\n",
        "\n",
        "## Findings & notes (2)\n\n",
        "- _(in scope)_ Totals off\n    by one\n",
        "- _(out of scope)_ Footer says 2024\n",
        "\n",
        "## Failures\n\n",
        "- **checkout** → _submit_ (attempt 1): webhook 500 retry later\n",
        "\n",
        "## Tests\n\n",
        "### ✓ checkout\n\n",
        "- ✗ submit\n",
        "    > webhook 500\n",
        "    > retry later\n",
        "- ✓ submit _(try #2_)\n",
        "\n",
        "### ✓ cart\n\n",
        "- ✓ add\n",
        "\n",
    ].concat();
    assert_eq!(render_markdown_export(&b), expected);
}

#[test]
fn markdown_export_of_an_empty_completed_run() {
    let mut run = sample_run();
    run.description = String::new();
    run.branch = String::new();
    run.commit_sha = String::new();
    run.url = String::new();
    run.pr_number = None;
    run.completed_at = Some("2026-04-28T11:00:00Z".to_string());
    let b = assemble_run_body(&run, &[], &[], &[], &[], &[], NOW);
    let expected = [
        "# Run: smoke\n\n",
        "- **Started**: 2026-04-28T10:00:00Z\n",
        "- **Completed**: 2026-04-28T11:00:00Z\n",
        "- **Counts**: 0 pass · 0 fail · 0 warn · 0 skip\n",
        "\n",
        "## Tests\n\n",
    ].concat();
    assert_eq!(render_markdown_export(&b), expected);
    assert_eq!(b.relative_completed.as_deref(), Some("0s ago"));
}
