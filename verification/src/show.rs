//! The terminal views: `show` (one run in full) and `list` (a table of
//! recent runs).
use vstd::prelude::*;

use crate::cli::plural_of;
use crate::dashboard::{
    count_kind, count_result, counts_of, counts_text, lemma_count_kind_bound,
    lemma_count_result_bound, push_counts, result_icon, rollup_icon, ResultCounts,
};
use crate::models::{
    kind_emoji, kind_label, result_str, rollup, rollup_of, scope_str, Kind, Result, Run, RunNote,
    RunStep,
};
use crate::runpage::{all_steps, lemma_triage_len, triage_notes, triage_order, TestSteps};
use crate::text::{
    concat_map, dec_int, dec_nat, join, join_strings, lemma_concat_map_all, lemma_concat_map_step,
    lines, push_char, push_i64, push_str, push_usize, split_lines, string_from,
};
use crate::time::{relative_at, relative_time_at, Timestamp};

verus! {

// ---------------------------------------------------------------------------
// Gathering
// ---------------------------------------------------------------------------

/// Every step attempt of the run, test by test.
pub fn collect_all_steps(tests: &[TestSteps]) -> (all: Vec<RunStep>)
    ensures
        all@ == all_steps(tests@),
{
    let mut all: Vec<RunStep> = Vec::new();
    let mut i: usize = 0;
    while i < tests.len()
        invariant
            i <= tests@.len(),
            all@ == all_steps(tests@.take(i as int)),
        decreases tests@.len() - i,
    {
        let ghost base = all@;
        let t = &tests[i];
        let mut j: usize = 0;
        while j < t.steps.len()
            invariant
                j <= t.steps@.len(),
                all@ == base + t.steps@.take(j as int),
            decreases t.steps@.len() - j,
        {
            all.push(t.steps[j].copied());
            assert(base + t.steps@.take(j + 1) =~= (base + t.steps@.take(j as int)).push(t.steps@[j as int]));
            j = j + 1;
        }
        assert(t.steps@.take(j as int) =~= t.steps@);
        assert(tests@.take(i + 1).drop_last() =~= tests@.take(i as int));
        i = i + 1;
    }
    assert(tests@.take(i as int) =~= tests@);
    all
}

/// The per-result counts of a list of steps.
pub fn count_steps(steps: &[RunStep]) -> (c: ResultCounts)
    requires
        steps@.len() < i64::MAX,
    ensures
        c == counts_of(steps@),
{
    let mut c = ResultCounts::new();
    let mut i: usize = 0;
    while i < steps.len()
        invariant
            i <= steps@.len(),
            steps@.len() < i64::MAX,
            c == counts_of(steps@.take(i as int)),
        decreases steps@.len() - i,
    {
        proof {
            let p = steps@.take(i as int);
            assert(steps@.take(i + 1).drop_last() =~= p);
            lemma_count_result_bound(p, Result::Pass);
            lemma_count_result_bound(p, Result::Fail);
            lemma_count_result_bound(p, Result::Warning);
            lemma_count_result_bound(p, Result::Skipped);
        }
        c.add(steps[i].result);
        i = i + 1;
    }
    assert(steps@.take(i as int) =~= steps@);
    c
}

/// The number of notes of kind `k`.
pub fn count_notes_of_kind(notes: &[RunNote], k: Kind) -> (n: usize)
    ensures
        n == count_kind(notes@, k),
{
    let mut n: usize = 0;
    let mut i: usize = 0;
    while i < notes.len()
        invariant
            i <= notes@.len(),
            n <= i,
            n == count_kind(notes@.take(i as int), k),
        decreases notes@.len() - i,
    {
        assert(notes@.take(i + 1).drop_last() =~= notes@.take(i as int));
        if notes[i].kind == k {
            n = n + 1;
        }
        i = i + 1;
    }
    assert(notes@.take(i as int) =~= notes@);
    n
}

// ---------------------------------------------------------------------------
// `show`
// ---------------------------------------------------------------------------

pub open spec fn show_header(run: Run, rollup: Option<Result>) -> Seq<char> {
    "Run: "@ + run.name@ + match rollup {
        Some(r) => "  ["@ + result_label_spec(r) + "]"@,
        None => Seq::empty(),
    } + "\n"@
}

pub open spec fn result_label_spec(r: Result) -> Seq<char> {
    crate::models::result_label(r)
}

pub open spec fn show_meta_line(key: Seq<char>, value: Seq<char>) -> Seq<char> {
    if value.len() > 0 {
        "  "@ + key + ": "@ + value + "\n"@
    } else {
        Seq::empty()
    }
}

pub open spec fn show_meta(run: Run) -> Seq<char> {
    let any = run.branch@.len() > 0 || run.commit_sha@.len() > 0 || run.env@.len() > 0 || run.url@.len() > 0;
    if any {
        "\n"@ + show_meta_line("Branch"@, run.branch@) + show_meta_line("Commit"@, run.commit_sha@)
            + show_meta_line("Env"@, run.env@) + show_meta_line("URL"@, run.url@)
    } else {
        Seq::empty()
    }
}

pub open spec fn show_intro(run: Run, rollup: Option<Result>, now: Timestamp) -> Seq<char> {
    show_header(run, rollup) + (if run.description@.len() > 0 {
        run.description@ + "\n"@
    } else {
        Seq::empty()
    }) + show_meta(run) + "\n"@ + "Started "@ + relative_at(run.started_at@, now) + " · "@ + (
    if run.completed_at is Some {
        "completed"@
    } else {
        "in progress"@
    }) + "\n"@
}

/// The per-kind parts of the findings line, bugs first.
pub open spec fn kind_parts(notes: Seq<RunNote>) -> Seq<Seq<char>> {
    let b = count_kind(notes, Kind::Bug);
    let p = count_kind(notes, Kind::Polish);
    let q = count_kind(notes, Kind::Question);
    let i = count_kind(notes, Kind::Info);
    (if b > 0 {
        seq!["🐛 "@ + dec_nat(b) + " bug"@ + plural_of(b as int)]
    } else {
        Seq::empty()
    }) + (if p > 0 {
        seq!["✏️ "@ + dec_nat(p) + " polish"@]
    } else {
        Seq::empty()
    }) + (if q > 0 {
        seq!["❓ "@ + dec_nat(q) + " question"@ + plural_of(q as int)]
    } else {
        Seq::empty()
    }) + (if i > 0 {
        seq!["ℹ️  "@ + dec_nat(i) + " info"@]
    } else {
        Seq::empty()
    })
}

pub open spec fn show_findings_line(notes: Seq<RunNote>) -> Seq<char> {
    if notes.len() == 0 {
        "Findings: ✓ none filed\n"@
    } else {
        "Findings: "@ + join(kind_parts(notes), " · "@) + "\n"@
    }
}

pub open spec fn continuation_line() -> spec_fn(Seq<char>) -> Seq<char> {
    |l: Seq<char>| "              "@ + l + "\n"@
}

pub open spec fn show_note(n: RunNote) -> Seq<char> {
    let ls = lines(n.text@);
    "  "@ + kind_emoji(n.kind) + " "@ + kind_label(n.kind) + " ["@ + scope_str(n.scope) + "] "@ + (
    if ls.len() > 0 {
        ls[0]
    } else {
        Seq::empty()
    }) + "\n"@ + continuation_lines(ls)
}

/// Every line but the first, as continuation lines.
pub open spec fn continuation_lines(ls: Seq<Seq<char>>) -> Seq<char> {
    if ls.len() > 0 {
        concat_map(ls.skip(1), continuation_line())
    } else {
        Seq::empty()
    }
}

pub open spec fn show_notes_each() -> spec_fn(RunNote) -> Seq<char> {
    |n: RunNote| show_note(n)
}

pub open spec fn show_notes(notes: Seq<RunNote>) -> Seq<char> {
    if notes.len() > 0 {
        "\nFindings & notes:\n"@ + concat_map(triage_order(notes), show_notes_each())
    } else {
        Seq::empty()
    }
}

pub open spec fn note_detail_line() -> spec_fn(Seq<char>) -> Seq<char> {
    |l: Seq<char>| "      "@ + l + "\n"@
}

pub open spec fn show_failure(test: Seq<char>, s: RunStep) -> Seq<char> {
    "  ✗ "@ + test + " / "@ + s.name@ + (if s.attempt > 1 {
        " (attempt "@ + dec_int(s.attempt as int) + ")"@
    } else {
        Seq::empty()
    }) + "\n"@ + (if s.note@.len() > 0 {
        concat_map(lines(s.note@), note_detail_line())
    } else {
        Seq::empty()
    })
}

pub open spec fn show_step_failures(test: Seq<char>) -> spec_fn(RunStep) -> Seq<char> {
    |s: RunStep|
        if s.result == Result::Fail {
            show_failure(test, s)
        } else {
            Seq::empty()
        }
}

pub open spec fn show_test_failures() -> spec_fn(TestSteps) -> Seq<char> {
    |t: TestSteps| concat_map(t.steps@, show_step_failures(t.test.name@))
}

pub open spec fn show_failures(tests: Seq<TestSteps>) -> Seq<char> {
    if count_result(all_steps(tests), Result::Fail) > 0 {
        "\nFailures:\n"@ + concat_map(tests, show_test_failures())
    } else {
        Seq::empty()
    }
}

pub open spec fn show_test_line(t: TestSteps) -> Seq<char> {
    "  "@ + rollup_icon(rollup_of(t.steps@)) + " "@ + t.test.name@ + " ("@ + dec_nat(t.steps@.len())
        + " step"@ + plural_of(t.steps@.len() as int) + ")\n"@
}

pub open spec fn show_tests_each() -> spec_fn(TestSteps) -> Seq<char> {
    |t: TestSteps| show_test_line(t)
}

/// What `show` prints for a run: header, description, metadata, start and
/// status, counts, findings summary, notes in triage order, failing steps,
/// then one line per test.
pub open spec fn show_text(run: Run, tests: Seq<TestSteps>, notes: Seq<RunNote>, now: Timestamp) -> Seq<char> {
    let all = all_steps(tests);
    show_intro(run, rollup_of(all), now) + ("Counts: "@ + counts_text(counts_of(all)))
        + show_findings_line(notes) + show_notes(notes) + show_failures(tests) + ("\nTests:\n"@
        + concat_map(tests, show_tests_each()))
}

fn push_meta_line(s: &mut String, key: &str, value: &str)
    ensures
        final(s)@ == old(s)@ + show_meta_line(key@, value@),
{
    if !value.is_empty() {
        push_str(s, "  ");
        push_str(s, key);
        push_str(s, ": ");
        push_str(s, value);
        push_str(s, "\n");
    }
}

fn show_header_exec(run: &Run, rollup: Option<Result>) -> (s: String)
    ensures
        s@ == show_header(*run, rollup) + (if run.description@.len() > 0 {
            run.description@ + "\n"@
        } else {
            Seq::empty()
        }),
{
    let mut s = string_from("Run: ");
    push_str(&mut s, run.name.as_str());
    match rollup {
        Some(r) => {
            push_str(&mut s, "  [");
            push_str(&mut s, r.label());
            push_str(&mut s, "]");
        },
        None => {},
    }
    push_str(&mut s, "\n");
    if !run.description.as_str().is_empty() {
        push_str(&mut s, run.description.as_str());
        push_str(&mut s, "\n");
    }
    s
}

fn show_meta_exec(run: &Run) -> (s: String)
    ensures
        s@ == show_meta(*run),
{
    let mut s = String::new();
    if run.has_metadata() {
        push_str(&mut s, "\n");
        push_meta_line(&mut s, "Branch", run.branch.as_str());
        push_meta_line(&mut s, "Commit", run.commit_sha.as_str());
        push_meta_line(&mut s, "Env", run.env.as_str());
        push_meta_line(&mut s, "URL", run.url.as_str());
    }
    s
}

fn show_started_exec(run: &Run, now: Timestamp) -> (s: String)
    requires
        now.nanos < 2_000_000_000,
    ensures
        s@ == "\n"@ + "Started "@ + relative_at(run.started_at@, now) + " · "@ + (if run.completed_at is Some {
            "completed"@
        } else {
            "in progress"@
        }) + "\n"@,
{
    let mut s = string_from("\n");
    push_str(&mut s, "Started ");
    let rel = relative_time_at(run.started_at.as_str(), now);
    push_str(&mut s, rel.as_str());
    push_str(&mut s, " · ");
    if run.completed_at.is_some() {
        push_str(&mut s, "completed");
    } else {
        push_str(&mut s, "in progress");
    }
    push_str(&mut s, "\n");
    s
}

fn show_intro_exec(run: &Run, rollup: Option<Result>, now: Timestamp) -> (s: String)
    requires
        now.nanos < 2_000_000_000,
    ensures
        s@ == show_intro(*run, rollup, now),
{
    let mut s = show_header_exec(run, rollup);
    let m = show_meta_exec(run);
    push_str(&mut s, m.as_str());
    let t = show_started_exec(run, now);
    push_str(&mut s, t.as_str());
    s
}

fn show_findings_line_exec(notes: &[RunNote]) -> (s: String)
    ensures
        s@ == show_findings_line(notes@),
{
    if notes.len() == 0 {
        return string_from("Findings: ✓ none filed\n");
    }
    let b = count_notes_of_kind(notes, Kind::Bug);
    let p = count_notes_of_kind(notes, Kind::Polish);
    let q = count_notes_of_kind(notes, Kind::Question);
    let i = count_notes_of_kind(notes, Kind::Info);
    let mut parts: Vec<String> = Vec::new();
    let ghost views = Seq::<Seq<char>>::empty();
    if b > 0 {
        let mut x = string_from("🐛 ");
        push_usize(&mut x, b);
        push_str(&mut x, " bug");
        if b == 1 {
            push_str(&mut x, "");
        } else {
            push_str(&mut x, "s");
        }
        parts.push(x);
    }
    if p > 0 {
        let mut x = string_from("✏️ ");
        push_usize(&mut x, p);
        push_str(&mut x, " polish");
        parts.push(x);
    }
    if q > 0 {
        let mut x = string_from("❓ ");
        push_usize(&mut x, q);
        push_str(&mut x, " question");
        if q == 1 {
            push_str(&mut x, "");
        } else {
            push_str(&mut x, "s");
        }
        parts.push(x);
    }
    if i > 0 {
        let mut x = string_from("ℹ️  ");
        push_usize(&mut x, i);
        push_str(&mut x, " info");
        parts.push(x);
    }
    assert(parts@.map_values(|p: String| p@) =~= kind_parts(notes@));
    let mut s = string_from("Findings: ");
    let j = join_strings(&parts, " · ");
    push_str(&mut s, j.as_str());
    push_str(&mut s, "\n");
    s
}

/// Appends the lines of `text`, each indented and ended by a newline:
/// all but the first as a note's continuation lines when `skip_first`,
/// else all of them as a failing step's note.
fn push_lines_with(s: &mut String, text: &str, skip_first: bool)
    ensures
        skip_first ==> final(s)@ == old(s)@ + continuation_lines(lines(text@)),
        !skip_first ==> final(s)@ == old(s)@ + concat_map(lines(text@), note_detail_line()),
{
    let ls = split_lines(text);
    let ghost all = lines(text@);
    let start: usize = if skip_first && ls.len() > 0 { 1 } else { 0 };
    let ghost views = if skip_first && all.len() > 0 { all.skip(1) } else if skip_first { Seq::<Seq<char>>::empty() } else { all };
    let ghost f = if skip_first { continuation_line() } else { note_detail_line() };
    let ghost s0 = s@;
    let mut i: usize = start;
    while i < ls.len()
        invariant
            start <= i <= ls@.len(),
            ls@.len() == all.len(),
            all == lines(text@),
            forall|k: int| 0 <= k < ls@.len() ==> #[trigger] ls@[k]@ == all[k],
            views == (if skip_first && all.len() > 0 { all.skip(1) } else if skip_first { Seq::<Seq<char>>::empty() } else { all }),
            f == (if skip_first { continuation_line() } else { note_detail_line() }),
            start == (if skip_first && ls@.len() > 0 { 1usize } else { 0usize }),
            s@ == s0 + concat_map(views.take(i - start), f),
        decreases ls@.len() - i,
    {
        if skip_first {
            push_str(s, "              ");
        } else {
            push_str(s, "      ");
        }
        push_str(s, ls[i].as_str());
        push_str(s, "\n");
        proof {
            assert(views[i - start] == ls@[i as int]@);
            lemma_concat_map_step(views, i - start, f);
        }
        i = i + 1;
    }
    proof {
        if skip_first && ls@.len() == 0 {
            assert(s@ =~= s0);
        } else {
            assert(views.len() == i - start);
            lemma_concat_map_all(views, f);
        }
    }
}

fn push_show_note(s: &mut String, n: &RunNote)
    ensures
        final(s)@ == old(s)@ + show_note(*n),
{
    push_str(s, "  ");
    push_str(s, n.kind.emoji());
    push_str(s, " ");
    push_str(s, n.kind.label());
    push_str(s, " [");
    push_str(s, n.scope.as_str());
    push_str(s, "] ");
    let ls = split_lines(n.text.as_str());
    if ls.len() > 0 {
        push_str(s, ls[0].as_str());
    }
    push_str(s, "\n");
    push_lines_with(s, n.text.as_str(), true);
}

fn show_notes_exec(notes: &[RunNote]) -> (s: String)
    ensures
        s@ == show_notes(notes@),
{
    let mut s = String::new();
    if notes.len() == 0 {
        return s;
    }
    push_str(&mut s, "\nFindings & notes:\n");
    let sorted = triage_notes(notes);
    let ghost start = s@;
    let mut i: usize = 0;
    while i < sorted.len()
        invariant
            i <= sorted@.len(),
            sorted@ == triage_order(notes@),
            s@ == start + concat_map(sorted@.take(i as int), show_notes_each()),
        decreases sorted@.len() - i,
    {
        push_show_note(&mut s, &sorted[i]);
        proof {
            lemma_concat_map_step(sorted@, i as int, show_notes_each());
        }
        i = i + 1;
    }
    proof {
        lemma_concat_map_all(sorted@, show_notes_each());
    }
    s
}

fn push_show_failure(s: &mut String, test: &String, st: &RunStep)
    ensures
        final(s)@ == old(s)@ + show_failure(test@, *st),
{
    push_str(s, "  ✗ ");
    push_str(s, test.as_str());
    push_str(s, " / ");
    push_str(s, st.name.as_str());
    if st.attempt > 1 {
        push_str(s, " (attempt ");
        push_i64(s, st.attempt);
        push_str(s, ")");
    }
    push_str(s, "\n");
    if !st.note.as_str().is_empty() {
        push_lines_with(s, st.note.as_str(), false);
    }
}

fn push_show_step_failures(s: &mut String, test: &String, steps: &Vec<RunStep>)
    ensures
        final(s)@ == old(s)@ + concat_map(steps@, show_step_failures(test@)),
{
    let ghost start = s@;
    let mut i: usize = 0;
    while i < steps.len()
        invariant
            i <= steps@.len(),
            s@ == start + concat_map(steps@.take(i as int), show_step_failures(test@)),
        decreases steps@.len() - i,
    {
        if steps[i].result == Result::Fail {
            push_show_failure(s, test, &steps[i]);
        }
        proof {
            lemma_concat_map_step(steps@, i as int, show_step_failures(test@));
        }
        i = i + 1;
    }
    proof {
        lemma_concat_map_all(steps@, show_step_failures(test@));
    }
}

fn show_failures_exec(tests: &[TestSteps], counts: &ResultCounts) -> (s: String)
    requires
        counts.fail == count_result(all_steps(tests@), Result::Fail),
    ensures
        s@ == show_failures(tests@),
{
    let mut s = String::new();
    if counts.fail <= 0 {
        return s;
    }
    push_str(&mut s, "\nFailures:\n");
    let ghost start = s@;
    let mut i: usize = 0;
    while i < tests.len()
        invariant
            i <= tests@.len(),
            s@ == start + concat_map(tests@.take(i as int), show_test_failures()),
        decreases tests@.len() - i,
    {
        push_show_step_failures(&mut s, &tests[i].test.name, &tests[i].steps);
        proof {
            lemma_concat_map_step(tests@, i as int, show_test_failures());
        }
        i = i + 1;
    }
    proof {
        lemma_concat_map_all(tests@, show_test_failures());
    }
    s
}

fn push_show_test_line(s: &mut String, t: &TestSteps)
    ensures
        final(s)@ == old(s)@ + show_test_line(*t),
{
    push_str(s, "  ");
    match rollup(t.steps.as_slice()) {
        Some(Result::Pass) => push_str(s, "✓"),
        Some(Result::Fail) => push_str(s, "✗"),
        Some(Result::Warning) => push_str(s, "⚠"),
        Some(Result::Skipped) => push_str(s, "⊘"),
        None => push_str(s, "·"),
    }
    push_str(s, " ");
    push_str(s, t.test.name.as_str());
    push_str(s, " (");
    push_usize(s, t.steps.len());
    push_str(s, " step");
    if t.steps.len() == 1 {
        push_str(s, "");
    } else {
        push_str(s, "s");
    }
    push_str(s, ")\n");
}

fn show_tests_exec(tests: &[TestSteps]) -> (s: String)
    ensures
        s@ == "\nTests:\n"@ + concat_map(tests@, show_tests_each()),
{
    let mut s = string_from("\nTests:\n");
    let ghost start = s@;
    let mut i: usize = 0;
    while i < tests.len()
        invariant
            i <= tests@.len(),
            s@ == start + concat_map(tests@.take(i as int), show_tests_each()),
        decreases tests@.len() - i,
    {
        push_show_test_line(&mut s, &tests[i]);
        proof {
            lemma_concat_map_step(tests@, i as int, show_tests_each());
        }
        i = i + 1;
    }
    proof {
        lemma_concat_map_all(tests@, show_tests_each());
    }
    s
}

/// Everything `show` prints for a run, as seen at `now`: `tests` in report
/// order with their steps oldest first, `notes` chronological.
pub fn render_show(run: &Run, tests: &[TestSteps], notes: &[RunNote], now: Timestamp) -> (s: String)
    requires
        now.nanos < 2_000_000_000,
        all_steps(tests@).len() < i64::MAX,
    ensures
        s@ == show_text(*run, tests@, notes@, now),
{
    let all = collect_all_steps(tests);
    let counts = count_steps(all.as_slice());
    proof {
        lemma_count_result_bound(all@, Result::Fail);
    }
    let r = rollup(all.as_slice());
    let mut s = show_intro_exec(run, r, now);
    let mut c = string_from("Counts: ");
    push_counts(&mut c, &counts);
    push_str(&mut s, c.as_str());
    let f = show_findings_line_exec(notes);
    push_str(&mut s, f.as_str());
    let n = show_notes_exec(notes);
    push_str(&mut s, n.as_str());
    let x = show_failures_exec(tests, &counts);
    push_str(&mut s, x.as_str());
    let t = show_tests_exec(tests);
    push_str(&mut s, t.as_str());
    s
}

// ---------------------------------------------------------------------------
// `list`
// ---------------------------------------------------------------------------

/// One run of the `list` table with its rollup.
pub struct ListRow {
    pub run: Run,
    pub rollup: Option<Result>,
}

/// The byte length of a string (`str::len`), which sets the name column.
pub open spec fn byte_len(s: Seq<char>) -> nat {
    vstd::utf8::encode_utf8(s).len()
}

/// The width of the name column: the longest name in bytes, at least 4.
pub open spec fn name_width(rows: Seq<ListRow>) -> nat
    decreases rows.len(),
{
    if rows.len() == 0 {
        4
    } else {
        let w = name_width(rows.drop_last());
        let n = byte_len(rows.last().run.name@);
        if n > w {
            n
        } else {
            w
        }
    }
}

pub open spec fn spaces(n: nat) -> Seq<char> {
    Seq::new(n, |i: int| ' ')
}

/// `format!("{:<w$}", s)`: padded with spaces on the right to `w` characters.
pub open spec fn pad_right(s: Seq<char>, w: nat) -> Seq<char> {
    if s.len() < w {
        s + spaces((w - s.len()) as nat)
    } else {
        s
    }
}

/// `format!("{:>w$}", s)`: padded with spaces on the left to `w` characters.
pub open spec fn pad_left(s: Seq<char>, w: nat) -> Seq<char> {
    if s.len() < w {
        spaces((w - s.len()) as nat) + s
    } else {
        s
    }
}

pub open spec fn list_header(w: nat) -> Seq<char> {
    pad_right("NAME"@, w) + "  "@ + pad_right("STATUS"@, 10) + "  "@ + pad_right("ROLLUP"@, 8) + "  "@
        + pad_left("TESTS"@, 5) + "  "@ + pad_left("STEPS"@, 5) + "  "@ + "STARTED"@ + "\n"@
}

pub open spec fn status_word(run: Run) -> Seq<char> {
    if run.completed_at is Some {
        "completed"@
    } else {
        "running"@
    }
}

pub open spec fn rollup_word(r: Option<Result>) -> Seq<char> {
    match r {
        Some(x) => result_str(x),
        None => "-"@,
    }
}

pub open spec fn list_row(r: ListRow, w: nat, now: Timestamp) -> Seq<char> {
    pad_right(r.run.name@, w) + "  "@ + pad_right(status_word(r.run), 10) + "  "@ + pad_right(
        rollup_word(r.rollup),
        8,
    ) + "  "@ + pad_left(dec_int(r.run.test_count as int), 5) + "  "@ + pad_left(
        dec_int(r.run.step_count as int),
        5,
    ) + "  "@ + relative_at(r.run.started_at@, now) + "\n"@
}

pub open spec fn list_rows_each(w: nat, now: Timestamp) -> spec_fn(ListRow) -> Seq<char> {
    |r: ListRow| list_row(r, w, now)
}

/// What `list` prints: `(no runs)`, or a header and one row per run.
pub open spec fn list_text(rows: Seq<ListRow>, now: Timestamp) -> Seq<char> {
    if rows.len() == 0 {
        "(no runs)\n"@
    } else {
        let w = name_width(rows);
        list_header(w) + concat_map(rows, list_rows_each(w, now))
    }
}

fn push_spaces(s: &mut String, n: usize)
    ensures
        final(s)@ == old(s)@ + spaces(n as nat),
{
    let ghost start = s@;
    let mut i: usize = 0;
    while i < n
        invariant
            i <= n,
            s@ == start + spaces(i as nat),
        decreases n - i,
    {
        push_char(s, ' ');
        assert(spaces((i + 1) as nat) =~= spaces(i as nat).push(' '));
        i = i + 1;
    }
}

fn push_padded(s: &mut String, t: &str, w: usize, left: bool)
    ensures
        !left ==> final(s)@ == old(s)@ + pad_right(t@, w as nat),
        left ==> final(s)@ == old(s)@ + pad_left(t@, w as nat),
{
    let n = crate::text::to_chars(t).len();
    if n < w {
        if left {
            push_spaces(s, w - n);
            push_str(s, t);
        } else {
            push_str(s, t);
            push_spaces(s, w - n);
        }
    } else {
        push_str(s, t);
    }
}

fn list_name_width(rows: &[ListRow]) -> (w: usize)
    requires
        forall|k: int| 0 <= k < rows@.len() ==> byte_len(#[trigger] rows@[k].run.name@) <= usize::MAX,
    ensures
        w == name_width(rows@),
{
    let mut w: usize = 4;
    let mut i: usize = 0;
    while i < rows.len()
        invariant
            i <= rows@.len(),
            w == name_width(rows@.take(i as int)),
            forall|k: int| 0 <= k < rows@.len() ==> byte_len(#[trigger] rows@[k].run.name@) <= usize::MAX,
        decreases rows@.len() - i,
    {
        assert(rows@.take(i + 1).drop_last() =~= rows@.take(i as int));
        assert(byte_len(rows@[i as int].run.name@) <= usize::MAX);
        let n = rows[i].run.name.as_str().len();
        if n > w {
            w = n;
        }
        i = i + 1;
    }
    assert(rows@.take(i as int) =~= rows@);
    w
}

pub open spec fn list_row_left(r: ListRow, w: nat) -> Seq<char> {
    pad_right(r.run.name@, w) + "  "@ + pad_right(status_word(r.run), 10) + "  "@ + pad_right(
        rollup_word(r.rollup),
        8,
    ) + "  "@
}

fn push_list_row_left(s: &mut String, r: &ListRow, w: usize)
    ensures
        final(s)@ == old(s)@ + list_row_left(*r, w as nat),
{
    let status: &str = if r.run.completed_at.is_some() {
        "completed"
    } else {
        "running"
    };
    let word: &str = match r.rollup {
        Some(x) => x.as_str(),
        None => "-",
    };
    assert(status@ == status_word(r.run));
    assert(word@ == rollup_word(r.rollup));
    let ghost s0 = s@;
    push_padded(s, r.run.name.as_str(), w, false);
    push_str(s, "  ");
    push_padded(s, status, 10, false);
    push_str(s, "  ");
    push_padded(s, word, 8, false);
    push_str(s, "  ");
    assert(s@ =~= s0 + list_row_left(*r, w as nat));
}

fn push_list_row(s: &mut String, r: &ListRow, w: usize, now: Timestamp)
    requires
        now.nanos < 2_000_000_000,
    ensures
        final(s)@ == old(s)@ + list_row(*r, w as nat, now),
{
    push_list_row_left(s, r, w);
    let mut tc = String::new();
    push_i64(&mut tc, r.run.test_count);
    push_padded(s, tc.as_str(), 5, true);
    push_str(s, "  ");
    let mut sc = String::new();
    push_i64(&mut sc, r.run.step_count);
    push_padded(s, sc.as_str(), 5, true);
    push_str(s, "  ");
    let rel = relative_time_at(r.run.started_at.as_str(), now);
    push_str(s, rel.as_str());
    push_str(s, "\n");
}

/// Everything `list` prints for the given runs (newest first, already cut
/// to the limit), as seen at `now`.
pub fn render_list(rows: &[ListRow], now: Timestamp) -> (s: String)
    requires
        now.nanos < 2_000_000_000,
        forall|k: int| 0 <= k < rows@.len() ==> byte_len(#[trigger] rows@[k].run.name@) <= usize::MAX,
    ensures
        s@ == list_text(rows@, now),
{
    if rows.len() == 0 {
        return string_from("(no runs)\n");
    }
    let w = list_name_width(rows);
    let mut s = String::new();
    push_padded(&mut s, "NAME", w, false);
    push_str(&mut s, "  ");
    push_padded(&mut s, "STATUS", 10, false);
    push_str(&mut s, "  ");
    push_padded(&mut s, "ROLLUP", 8, false);
    push_str(&mut s, "  ");
    push_padded(&mut s, "TESTS", 5, true);
    push_str(&mut s, "  ");
    push_padded(&mut s, "STEPS", 5, true);
    push_str(&mut s, "  ");
    push_str(&mut s, "STARTED");
    push_str(&mut s, "\n");
    let ghost start = s@;
    let mut i: usize = 0;
    while i < rows.len()
        invariant
            i <= rows@.len(),
            now.nanos < 2_000_000_000,
            w == name_width(rows@),
            s@ == start + concat_map(rows@.take(i as int), list_rows_each(w as nat, now)),
        decreases rows@.len() - i,
    {
        push_list_row(&mut s, &rows[i], w, now);
        proof {
            lemma_concat_map_step(rows@, i as int, list_rows_each(w as nat, now));
        }
        i = i + 1;
    }
    proof {
        lemma_concat_map_all(rows@, list_rows_each(w as nat, now));
    }
    s
}

/// The number of notes of kind `k`, counted directly.
pub open spec fn notes_of_kind_count(notes: Seq<RunNote>, k: Kind) -> nat {
    notes.filter(|n: RunNote| n.kind == k).len()
}

proof fn lemma_count_kind_is_filter(notes: Seq<RunNote>, k: Kind)
    ensures
        count_kind(notes, k) == notes_of_kind_count(notes, k),
    decreases notes.len(),
{
    reveal(Seq::filter);
    if notes.len() > 0 {
        lemma_count_kind_is_filter(notes.drop_last(), k);
    }
}

pub open spec fn bug_part(n: nat) -> Seq<char> {
    "🐛 "@ + dec_nat(n) + " bug"@ + plural_of(n as int)
}

pub open spec fn polish_part(n: nat) -> Seq<char> {
    "✏️ "@ + dec_nat(n) + " polish"@
}

pub open spec fn question_part(n: nat) -> Seq<char> {
    "❓ "@ + dec_nat(n) + " question"@ + plural_of(n as int)
}

pub open spec fn info_part(n: nat) -> Seq<char> {
    "ℹ️  "@ + dec_nat(n) + " info"@
}

proof fn lemma_part_heads(n: nat)
    ensures
        bug_part(n).len() > 0 && bug_part(n)[0] == '🐛',
        polish_part(n).len() > 0 && polish_part(n)[0] == '✏',
        question_part(n).len() > 0 && question_part(n)[0] == '❓',
        info_part(n).len() > 0 && info_part(n)[0] == 'ℹ',
{
    reveal_strlit("🐛 ");
    reveal_strlit("✏️ ");
    reveal_strlit("❓ ");
    reveal_strlit("ℹ️  ");
    let a = "🐛 "@ + dec_nat(n) + " bug"@;
    assert(bug_part(n)[0] == a[0]);
    let c = "❓ "@ + dec_nat(n) + " question"@;
    assert(question_part(n)[0] == c[0]);
}

/// The findings line of `show` counts each kind of note: with no notes it
/// says none were filed; otherwise its parts (joined by ` · `) are, for each
/// kind with at least one note, that kind's emoji, its number of notes and
/// its name — bugs, then polish, questions, information — and a kind
/// without notes has no part.
pub proof fn lemma_findings_line_counts_each_kind(notes: Seq<RunNote>)
    ensures
        notes.len() == 0 ==> show_findings_line(notes) == "Findings: ✓ none filed\n"@,
        notes.len() > 0 ==> show_findings_line(notes) == "Findings: "@ + join(kind_parts(notes), " · "@)
            + "\n"@,
        kind_parts(notes) == (if notes_of_kind_count(notes, Kind::Bug) > 0 {
            seq![bug_part(notes_of_kind_count(notes, Kind::Bug))]
        } else {
            Seq::empty()
        }) + (if notes_of_kind_count(notes, Kind::Polish) > 0 {
            seq![polish_part(notes_of_kind_count(notes, Kind::Polish))]
        } else {
            Seq::empty()
        }) + (if notes_of_kind_count(notes, Kind::Question) > 0 {
            seq![question_part(notes_of_kind_count(notes, Kind::Question))]
        } else {
            Seq::empty()
        }) + (if notes_of_kind_count(notes, Kind::Info) > 0 {
            seq![info_part(notes_of_kind_count(notes, Kind::Info))]
        } else {
            Seq::empty()
        }),
        kind_parts(notes).contains(polish_part(notes_of_kind_count(notes, Kind::Polish)))
            <==> notes_of_kind_count(notes, Kind::Polish) > 0,
        forall|x: Seq<char>|
            #[trigger] kind_parts(notes).contains(x) && x.len() > 0 && x[0] == '✏' ==> x
                == polish_part(notes_of_kind_count(notes, Kind::Polish)) && notes_of_kind_count(
                notes,
                Kind::Polish,
            ) > 0,
{
    lemma_count_kind_is_filter(notes, Kind::Bug);
    lemma_count_kind_is_filter(notes, Kind::Polish);
    lemma_count_kind_is_filter(notes, Kind::Question);
    lemma_count_kind_is_filter(notes, Kind::Info);
    let b = notes_of_kind_count(notes, Kind::Bug);
    let p = notes_of_kind_count(notes, Kind::Polish);
    let q = notes_of_kind_count(notes, Kind::Question);
    let i = notes_of_kind_count(notes, Kind::Info);
    lemma_part_heads(b);
    lemma_part_heads(p);
    lemma_part_heads(q);
    lemma_part_heads(i);
    let sa: Seq<Seq<char>> = if b > 0 { seq![bug_part(b)] } else { Seq::empty() };
    let sp: Seq<Seq<char>> = if p > 0 { seq![polish_part(p)] } else { Seq::empty() };
    let sq: Seq<Seq<char>> = if q > 0 { seq![question_part(q)] } else { Seq::empty() };
    let si: Seq<Seq<char>> = if i > 0 { seq![info_part(i)] } else { Seq::empty() };
    let parts = kind_parts(notes);
    assert(parts =~= sa + sp + sq + si);
    if p > 0 {
        assert(parts[sa.len() as int] == polish_part(p));
    }
    assert forall|x: Seq<char>| #[trigger] parts.contains(x) && x.len() > 0 && x[0] == '✏' implies x
        == polish_part(p) && p > 0 by {
        let k = choose|k: int| 0 <= k < parts.len() && parts[k] == x;
        if k < sa.len() {
            assert(x == bug_part(b));
        } else if k < sa.len() + sp.len() {
            assert(x == sp[k - sa.len()]);
        } else if k < sa.len() + sp.len() + sq.len() {
            assert(x == question_part(q));
        } else {
            assert(x == info_part(i));
        }
    }
}

} // verus!
