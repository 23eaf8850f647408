//! The decisions of the dashboard's request handlers: the rows of the runs
//! table, the tests compared between two runs, the checks on posted
//! feedback, and the answer to a refused request.
use vstd::prelude::*;

use crate::compare::TestRollup;
use crate::dashboard::{
    count_kind, counts_of, kind_counts_of, lemma_count_kind_bound, KindCounts, ResultCounts,
};
use crate::models::{
    feedback_target_str, invalid_message, parse_feedback_target, rollup, rollup_of, FeedbackTarget,
    InvalidValue, Kind, Result, Run, RunNote, RunStep,
};
use crate::runpage::{all_steps, TestSteps};
use crate::show::{collect_all_steps, count_steps};
use crate::text::{
    ascii_lower, concat_map, dec_int, lemma_concat_map_all, lemma_concat_map_step, push_char,
    push_i64, push_str, string_from, to_chars, trim, trimmed,
};
use crate::time::{relative_at, relative_time_at, Timestamp};

verus! {

// ---------------------------------------------------------------------------
// Refused requests
// ---------------------------------------------------------------------------

/// Why a request was refused: something it names does not exist, or
/// anything else, with its message.
pub enum AppError {
    NotFound(String),
    Other(String),
}

impl AppError {
    /// The status code and body of the answer: `404` and "<what> not
    /// found", or `500` and "error: <message>".
    pub fn into_response(self) -> (r: (u16, String))
        ensures
            match self {
                AppError::NotFound(what) => r.0 == 404 && r.1@ == what@ + " not found"@,
                AppError::Other(msg) => r.0 == 500 && r.1@ == "error: "@ + msg@,
            },
    {
        match self {
            AppError::NotFound(what) => {
                let mut s = what;
                push_str(&mut s, " not found");
                (404, s)
            },
            AppError::Other(msg) => {
                let mut s = string_from("error: ");
                push_str(&mut s, msg.as_str());
                (500, s)
            },
        }
    }

    /// A value that failed to parse, refused with its message.
    pub fn from(e: InvalidValue) -> (r: AppError)
        ensures
            r matches AppError::Other(m) && m@ == e.message@,
    {
        AppError::Other(e.message)
    }
}

// ---------------------------------------------------------------------------
// The runs table
// ---------------------------------------------------------------------------

/// One row of the runs table on the home page.
pub struct RunRow {
    pub run: Run,
    pub relative_started: String,
    pub rollup: Option<Result>,
    pub counts: ResultCounts,
    /// Notes per kind; drives the Findings column.
    pub kind_counts: KindCounts,
}

/// The per-kind counts of a run's notes.
pub fn count_kinds(notes: &[RunNote]) -> (c: KindCounts)
    requires
        notes@.len() < i64::MAX,
    ensures
        c == kind_counts_of(notes@),
{
    let mut c = KindCounts::new();
    let mut i: usize = 0;
    while i < notes.len()
        invariant
            i <= notes@.len(),
            notes@.len() < i64::MAX,
            c == kind_counts_of(notes@.take(i as int)),
        decreases notes@.len() - i,
    {
        proof {
            let p = notes@.take(i as int);
            assert(notes@.take(i + 1).drop_last() =~= p);
            lemma_count_kind_bound(p, Kind::Bug);
            lemma_count_kind_bound(p, Kind::Polish);
            lemma_count_kind_bound(p, Kind::Question);
            lemma_count_kind_bound(p, Kind::Info);
        }
        c.add(notes[i].kind);
        i = i + 1;
    }
    assert(notes@.take(i as int) =~= notes@);
    c
}

/// The runs-table row of `run`, from its tests with their steps and its
/// notes, as seen at `now`.
pub fn run_row(run: &Run, tests: &[TestSteps], notes: &[RunNote], now: Timestamp) -> (row: RunRow)
    requires
        now.nanos < 2_000_000_000,
        all_steps(tests@).len() < i64::MAX,
        notes@.len() < i64::MAX,
    ensures
        row.run == *run,
        row.relative_started@ == relative_at(run.started_at@, now),
        row.rollup == rollup_of(all_steps(tests@)),
        row.counts == counts_of(all_steps(tests@)),
        row.kind_counts == kind_counts_of(notes@),
{
    let all = collect_all_steps(tests);
    let counts = count_steps(all.as_slice());
    let r = rollup(all.as_slice());
    let kind_counts = count_kinds(notes);
    RunRow {
        run: run.copied(),
        relative_started: relative_time_at(run.started_at.as_str(), now),
        rollup: r,
        counts,
        kind_counts,
    }
}

/// `runs` without the run `id`, in their order.
pub open spec fn runs_other_than(runs: Seq<Run>, id: i64) -> Seq<Run>
    decreases runs.len(),
{
    if runs.len() == 0 {
        Seq::empty()
    } else {
        let head = runs_other_than(runs.drop_last(), id);
        if runs.last().id == id {
            head
        } else {
            head.push(runs.last())
        }
    }
}

/// The runs the run page offers to compare with: every run but `id`.
pub fn other_runs(runs: &[Run], id: i64) -> (r: Vec<Run>)
    ensures
        r@ == runs_other_than(runs@, id),
{
    let mut out: Vec<Run> = Vec::new();
    let mut i: usize = 0;
    while i < runs.len()
        invariant
            i <= runs@.len(),
            out@ == runs_other_than(runs@.take(i as int), id),
        decreases runs@.len() - i,
    {
        assert(runs@.take(i + 1).drop_last() =~= runs@.take(i as int));
        if runs[i].id != id {
            out.push(runs[i].copied());
        }
        i = i + 1;
    }
    assert(runs@.take(i as int) =~= runs@);
    out
}

// ---------------------------------------------------------------------------
// HTML text
// ---------------------------------------------------------------------------

/// One character as it may stand in HTML text or an attribute value.
pub open spec fn escaped_char(c: char) -> Seq<char> {
    if c == '&' {
        "&amp;"@
    } else if c == '<' {
        "&lt;"@
    } else if c == '>' {
        "&gt;"@
    } else if c == '"' {
        "&quot;"@
    } else if c == '\'' {
        "&#x27;"@
    } else {
        seq![c]
    }
}

pub open spec fn escaped_chars() -> spec_fn(char) -> Seq<char> {
    |c: char| escaped_char(c)
}

/// Text made safe to place in HTML: `&`, `<`, `>`, `"` and `'` become
/// character references, every other character stays.
pub fn escape_html(s: &str) -> (r: String)
    ensures
        r@ == concat_map(s@, escaped_chars()),
{
    let cs = to_chars(s);
    let mut r = String::new();
    let mut i: usize = 0;
    while i < cs.len()
        invariant
            i <= cs@.len(),
            cs@ == s@,
            r@ == concat_map(cs@.take(i as int), escaped_chars()),
        decreases cs@.len() - i,
    {
        let c = cs[i];
        if c == '&' {
            push_str(&mut r, "&amp;");
        } else if c == '<' {
            push_str(&mut r, "&lt;");
        } else if c == '>' {
            push_str(&mut r, "&gt;");
        } else if c == '"' {
            push_str(&mut r, "&quot;");
        } else if c == '\'' {
            push_str(&mut r, "&#x27;");
        } else {
            push_char(&mut r, c);
            assert(r@ =~= concat_map(cs@.take(i as int), escaped_chars()) + seq![c]);
        }
        proof {
            lemma_concat_map_step(cs@, i as int, escaped_chars());
        }
        i = i + 1;
    }
    proof {
        lemma_concat_map_all(cs@, escaped_chars());
    }
    r
}

// ---------------------------------------------------------------------------
// Markdown export
// ---------------------------------------------------------------------------

/// The run name with every `/` turned into `-`.
pub open spec fn slash_free(name: Seq<char>) -> Seq<char> {
    name.map_values(|c: char| if c == '/' { '-' } else { c })
}

/// The file name the markdown export of a run downloads as:
/// `<name with / as ->.md`.
pub fn export_filename(run_name: &str) -> (r: String)
    ensures
        r@ == slash_free(run_name@) + ".md"@,
{
    let cs = crate::text::to_chars(run_name);
    let mut r = String::new();
    let mut i: usize = 0;
    while i < cs.len()
        invariant
            i <= cs@.len(),
            cs@ == run_name@,
            r@ == slash_free(cs@.take(i as int)),
        decreases cs@.len() - i,
    {
        let c = cs[i];
        crate::text::push_char(&mut r, if c == '/' { '-' } else { c });
        assert(slash_free(cs@.take(i + 1)) =~= slash_free(cs@.take(i as int)).push(
            if c == '/' { '-' } else { c },
        ));
        i = i + 1;
    }
    assert(cs@.take(i as int) =~= cs@);
    push_str(&mut r, ".md");
    r
}

/// The `Content-Disposition` of the export: `attachment; filename="<file>"`.
pub fn export_disposition(run_name: &str) -> (r: String)
    ensures
        r@ == "attachment; filename=\""@ + slash_free(run_name@) + ".md\""@,
{
    let f = export_filename(run_name);
    let mut r = string_from("attachment; filename=\"");
    push_str(&mut r, f.as_str());
    push_str(&mut r, "\"");
    proof {
        reveal_strlit(".md");
        reveal_strlit(".md\"");
        reveal_strlit("\"");
        assert(".md"@ + "\""@ =~= ".md\""@);
    }
    assert(r@ =~= "attachment; filename=\""@ + slash_free(run_name@) + ".md\""@);
    r
}

// ---------------------------------------------------------------------------
// Comparing two runs
// ---------------------------------------------------------------------------

/// Each test of a run with its rollup, in the run's order.
pub fn test_rollups(tests: &[TestSteps]) -> (r: Vec<TestRollup>)
    ensures
        r@.len() == tests@.len(),
        forall|i: int|
            0 <= i < tests@.len() ==> #[trigger] r@[i].name@ == tests@[i].test.name@
                && r@[i].rollup == rollup_of(tests@[i].steps@),
{
    let mut out: Vec<TestRollup> = Vec::new();
    let mut i: usize = 0;
    while i < tests.len()
        invariant
            i <= tests@.len(),
            out@.len() == i,
            forall|k: int|
                0 <= k < i ==> #[trigger] out@[k].name@ == tests@[k].test.name@ && out@[k].rollup
                    == rollup_of(tests@[k].steps@),
        decreases tests@.len() - i,
    {
        let t = &tests[i];
        out.push(TestRollup { name: t.test.name.clone(), rollup: rollup(t.steps.as_slice()) });
        i = i + 1;
    }
    out
}

fn copy_steps(steps: &Vec<RunStep>) -> (r: Vec<RunStep>)
    ensures
        r@ == steps@,
{
    let mut out: Vec<RunStep> = Vec::new();
    let mut i: usize = 0;
    while i < steps.len()
        invariant
            i <= steps@.len(),
            out@ == steps@.take(i as int),
        decreases steps@.len() - i,
    {
        out.push(steps[i].copied());
        assert(steps@.take(i + 1) =~= steps@.take(i as int).push(steps@[i as int]));
        i = i + 1;
    }
    assert(steps@.take(i as int) =~= steps@);
    out
}

/// The step rows (all attempts) of the first test of the run named
/// `name`; none when the run has no such test.
pub fn steps_for_named_test(tests: &[TestSteps], name: &str) -> (r: Vec<RunStep>)
    ensures
        (forall|i: int| 0 <= i < tests@.len() ==> #[trigger] tests@[i].test.name@ != name@)
            ==> r@.len() == 0,
        (exists|i: int| 0 <= i < tests@.len() && #[trigger] tests@[i].test.name@ == name@) ==> exists|i: int|
            0 <= i < tests@.len() && #[trigger] tests@[i].test.name@ == name@ && r@
                == tests@[i].steps@ && forall|j: int|
                0 <= j < i ==> #[trigger] tests@[j].test.name@ != name@,
{
    let mut i: usize = 0;
    while i < tests.len()
        invariant
            i <= tests@.len(),
            forall|j: int| 0 <= j < i ==> #[trigger] tests@[j].test.name@ != name@,
        decreases tests@.len() - i,
    {
        if crate::text::str_eq(tests[i].test.name.as_str(), name) {
            return copy_steps(&tests[i].steps);
        }
        i = i + 1;
    }
    Vec::new()
}

// ---------------------------------------------------------------------------
// Posted feedback
// ---------------------------------------------------------------------------

/// The feedback form as posted by the run page.
pub struct FeedbackForm {
    pub run_id: i64,
    pub target_kind: String,
    pub target_id: i64,
    pub text: String,
}

/// A feedback form that passed its checks: its target parsed and its text
/// trimmed.
pub struct FeedbackRequest {
    pub run_id: i64,
    pub target_kind: FeedbackTarget,
    pub target_id: i64,
    pub text: String,
}

/// Checks a posted form: the target kind must name a target, and the
/// trimmed text must not be empty.
pub fn check_feedback_form(form: &FeedbackForm) -> (r: core::result::Result<FeedbackRequest, AppError>)
    ensures
        r is Ok <==> (parse_feedback_target(form.target_kind@) is Some && trimmed(form.text@).len()
            > 0),
        parse_feedback_target(form.target_kind@) is None ==> (r matches Err(AppError::Other(m))
            && m@ == invalid_message(
            "invalid feedback target '"@,
            ascii_lower(form.target_kind@),
            "' — use note, test, or run"@,
        )),
        (parse_feedback_target(form.target_kind@) is Some && trimmed(form.text@).len() == 0) ==> (
        r matches Err(AppError::Other(m)) && m@ == "feedback text required"@),
        r matches Ok(q) ==> {
            &&& q.run_id == form.run_id
            &&& Some(q.target_kind) == parse_feedback_target(form.target_kind@)
            &&& q.target_id == form.target_id
            &&& q.text@ == trimmed(form.text@)
        },
{
    let target_kind = match FeedbackTarget::parse(form.target_kind.as_str()) {
        Ok(t) => t,
        Err(e) => {
            return Err(AppError::from(e));
        },
    };
    let text = trim(form.text.as_str());
    if text.as_str().is_empty() {
        return Err(AppError::Other(string_from("feedback text required")));
    }
    Ok(FeedbackRequest { run_id: form.run_id, target_kind, target_id: form.target_id, text })
}

/// Whether the target of a checked request belongs to its run. A note or a
/// test belongs when the store holds it under the run (`stored_in_run`);
/// the run itself only when the ids agree.
pub open spec fn target_belongs(q: FeedbackRequest, stored_in_run: bool) -> bool {
    match q.target_kind {
        FeedbackTarget::Run => q.target_id == q.run_id,
        _ => stored_in_run,
    }
}

/// "<kind> <id> in run <run>": what a refused feedback target names.
pub open spec fn missing_target_text(q: FeedbackRequest) -> Seq<char> {
    feedback_target_str(q.target_kind) + " "@ + dec_int(q.target_id as int) + " in run "@ + dec_int(
        q.run_id as int,
    )
}

/// Refuses a request whose target is not part of its run, as not found.
pub fn check_feedback_target(q: &FeedbackRequest, stored_in_run: bool) -> (r: core::result::Result<(), AppError>)
    ensures
        r is Ok <==> target_belongs(*q, stored_in_run),
        r matches Err(e) ==> (e matches AppError::NotFound(w) && w@ == missing_target_text(*q)),
{
    let belongs = match q.target_kind {
        FeedbackTarget::Run => q.target_id == q.run_id,
        _ => stored_in_run,
    };
    if belongs {
        return Ok(());
    }
    let mut w = string_from(q.target_kind.as_str());
    push_str(&mut w, " ");
    push_i64(&mut w, q.target_id);
    push_str(&mut w, " in run ");
    push_i64(&mut w, q.run_id);
    Err(AppError::NotFound(w))
}

} // verus!
