use testito::models::{Kind, Result, Run, RunNote, RunStep, RunTest, Scope};
use testito::runpage::TestSteps;
use testito::show::{render_list, render_show, ListRow};
use testito::time::Timestamp;

fn step(name: &str, attempt: i64, result: Result, note: &str) -> RunStep {
    RunStep {
        id: 0,
        run_test_id: 0,
        name: name.to_string(),
        attempt,
        result,
        note: note.to_string(),
        reported_at: String::new(),
    }
}

fn run(name: &str, completed: bool) -> Run {
    Run {
        id: 1,
        name: name.to_string(),
        description: "Cart regression".to_string(),
        branch: "main".to_string(),
        commit_sha: "abc1234".to_string(),
        env: String::new(),
        url: "http://localhost:3000".to_string(),
        workdir: String::new(),
        pr_number: None,
        pr_url: String::new(),
        started_at: "2026-04-28T10:00:00Z".to_string(),
        completed_at: if completed { Some("2026-04-28T10:30:00Z".to_string()) } else { None },
        test_count: 2,
        step_count: 3,
        note_count: 2,
    }
}

const NOW: Timestamp = Timestamp { secs: 1_777_374_000, nanos: 0 };

#[test]
fn show_prints_findings_failures_and_tests() {
    let tests = vec![
        TestSteps {
            test: RunTest { id: 10, run_id: 1, name: "checkout".to_string(), first_reported_at: String::new() },
            steps: vec![
                step("submit", 1, Result::Fail, "webhook 500\nretry later"),
                step("submit", 2, Result::Pass, ""),
            ],
        },
        TestSteps {
            test: RunTest { id: 11, run_id: 1, name: "cart".to_string(), first_reported_at: String::new() },
            steps: vec![step("add", 1, Result::Pass, "")],
        },
    ];
    let notes = vec![
        RunNote { id: 1, run_id: 1, scope: Scope::Out, kind: Kind::Info, text: "Footer says 2024".to_string(), reported_at: String::new() },
        RunNote { id: 2, run_id: 1, scope: Scope::In, kind: Kind::Bug, text: "Totals off\nby one".to_string(), reported_at: String::new() },
    ];
    let expected = [
        "Run: smoke  [Pass]\n",
        "Cart regression\n",
        "\n  Branch: main\n  Commit: abc1234\n  URL: http://localhost:3000\n",
        "\n",
        "Started 1h ago · in progress\n",
        "Counts: 2 pass · 1 fail · 0 warn · 0 skip\n",
        "Findings: 🐛 1 bug · ℹ️  1 info\n",
        "\nFindings & notes:\n",
        "  🐛 Bug [in] Totals off\n",
        "              by one\n",
        "  ℹ️ Info [out] Footer says 2024\n",
        "\nFailures:\n",
        "  ✗ checkout / submit\n",
        "      webhook 500\n",
        "      retry later\n",
        "\nTests:\n",
        "  ✓ checkout (2 steps)\n",
        "  ✓ cart (1 step)\n",
    ].concat();
    assert_eq!(render_show(&run("smoke", false), &tests, &notes, NOW), expected);
}

#[test]
fn show_of_an_empty_run() {
    let mut r = run("smoke", true);
    r.description = String::new();
    r.branch = String::new();
    r.commit_sha = String::new();
    r.url = String::new();
    let expected = [
        "Run: smoke\n",
        "\n",
        "Started 1h ago · completed\n",
        "Counts: 0 pass · 0 fail · 0 warn · 0 skip\n",
        "Findings: ✓ none filed\n",
        "\nTests:\n",
    ].concat();
    assert_eq!(render_show(&r, &[], &[], NOW), expected);
}

#[test]
fn list_pads_columns_to_the_longest_name() {
    let rows = vec![
        ListRow { run: run("smoke", false), rollup: Some(Result::Pass) },
        ListRow { run: run("ab", true), rollup: None },
    ];
    let expected = [
        "NAME   STATUS      ROLLUP    TESTS  STEPS  STARTED\n",
        "smoke  running     pass          2      3  1h ago\n",
        "ab     completed   -             2      3  1h ago\n",
    ].concat();
    assert_eq!(render_list(&rows, NOW), expected);
}

#[test]
fn list_without_runs() {
    assert_eq!(render_list(&[], NOW), "(no runs)\n");
}
