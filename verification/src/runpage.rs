//! Assembling the run page from the records of one run: per-test rows,
//! notes in triage order, attachments and feedback grouped by target,
//! counts, rollups and the PR summary.
use vstd::prelude::*;

use crate::dashboard::{
    counts_of, counts_plus, failing_in_steps, failing_in_tests, latest_failing_in_tests,
    lemma_latest_failing_count_bound, kind_counts_of, kind_counts_plus,
    lemma_count_kind_bound, lemma_count_result_bound, pr_summary, render_pr_summary, FeedbackItem,
    KindCounts, NoteRow, ResultCounts, ReviewRow, RunBody, StepRow, TestRow, count_kind,
    count_result,
};
use crate::md::{commonmark_html, markdown_extensions, to_html};
use crate::models::{
    kind_label, kind_priority, result_str, rollup, rollup_of, Attachment, AttachmentTarget, Feedback,
    FeedbackTarget, Kind, Result, Review, Run, RunNote, RunStep, RunTest, Scope,
};
use crate::text::{push_str, string_from};
use crate::time::{relative_at, relative_time_at, Timestamp};

verus! {

/// One test of a run with all its step attempts, oldest first.
pub struct TestSteps {
    pub test: RunTest,
    pub steps: Vec<RunStep>,
}

/// Markdown rendered as notes are.
pub open spec fn rendered(text: Seq<char>) -> Seq<char> {
    commonmark_html(text, markdown_extensions())
}

// ---------------------------------------------------------------------------
// Grouping by target
// ---------------------------------------------------------------------------

/// The attachments on one target, in their stored order.
pub open spec fn atts_for(atts: Seq<Attachment>, kind: AttachmentTarget, id: i64) -> Seq<Attachment>
    decreases atts.len(),
{
    if atts.len() == 0 {
        Seq::empty()
    } else {
        let h = atts_for(atts.drop_last(), kind, id);
        if atts.last().target_kind == kind && atts.last().target_id == id {
            h.push(atts.last())
        } else {
            h
        }
    }
}

/// The feedback on one target, in its stored order.
pub open spec fn feedback_for(fb: Seq<Feedback>, kind: FeedbackTarget, id: i64) -> Seq<Feedback>
    decreases fb.len(),
{
    if fb.len() == 0 {
        Seq::empty()
    } else {
        let h = feedback_for(fb.drop_last(), kind, id);
        if fb.last().target_kind == kind && fb.last().target_id == id {
            h.push(fb.last())
        } else {
            h
        }
    }
}

/// The attachments of one target.
pub fn attachments_for(atts: &[Attachment], kind: AttachmentTarget, id: i64) -> (r: Vec<Attachment>)
    ensures
        r@ == atts_for(atts@, kind, id),
{
    let mut r: Vec<Attachment> = Vec::new();
    let mut i: usize = 0;
    while i < atts.len()
        invariant
            i <= atts@.len(),
            r@ == atts_for(atts@.take(i as int), kind, id),
        decreases atts@.len() - i,
    {
        if atts[i].target_kind == kind && atts[i].target_id == id {
            r.push(atts[i].copied());
        }
        assert(atts@.take(i + 1).drop_last() =~= atts@.take(i as int));
        i = i + 1;
    }
    assert(atts@.take(i as int) =~= atts@);
    r
}

pub open spec fn feedback_item_ok(item: FeedbackItem, f: Feedback, now: Timestamp) -> bool {
    &&& item.feedback == f
    &&& item.text_html@ == rendered(f.text@)
    &&& item.relative_created@ == relative_at(f.created_at@, now)
}

pub open spec fn feedback_items_ok(items: Seq<FeedbackItem>, fs: Seq<Feedback>, now: Timestamp) -> bool {
    &&& items.len() == fs.len()
    &&& forall|k: int| 0 <= k < items.len() ==> feedback_item_ok(#[trigger] items[k], fs[k], now)
}

impl FeedbackItem {
    /// A piece of feedback with its text rendered and its age as of `now`.
    pub fn from(f: &Feedback, now: Timestamp) -> (item: FeedbackItem)
        requires
            now.nanos < 2_000_000_000,
        ensures
            feedback_item_ok(item, *f, now),
    {
        FeedbackItem {
            text_html: to_html(f.text.as_str()),
            relative_created: relative_time_at(f.created_at.as_str(), now),
            feedback: f.copied(),
        }
    }
}

/// The feedback items of one target.
pub fn feedback_items(fb: &[Feedback], kind: FeedbackTarget, id: i64, now: Timestamp) -> (r: Vec<FeedbackItem>)
    requires
        now.nanos < 2_000_000_000,
    ensures
        feedback_items_ok(r@, feedback_for(fb@, kind, id), now),
{
    let mut r: Vec<FeedbackItem> = Vec::new();
    let mut i: usize = 0;
    while i < fb.len()
        invariant
            i <= fb@.len(),
            now.nanos < 2_000_000_000,
            feedback_items_ok(r@, feedback_for(fb@.take(i as int), kind, id), now),
        decreases fb@.len() - i,
    {
        assert(fb@.take(i + 1).drop_last() =~= fb@.take(i as int));
        if fb[i].target_kind == kind && fb[i].target_id == id {
            let item = FeedbackItem::from(&fb[i], now);
            r.push(item);
        }
        i = i + 1;
    }
    assert(fb@.take(i as int) =~= fb@);
    r
}

// ---------------------------------------------------------------------------
// Rows
// ---------------------------------------------------------------------------

/// A step's note rendered, or empty when it has none.
pub open spec fn note_html_of(note: Seq<char>) -> Seq<char> {
    if note.len() == 0 {
        Seq::empty()
    } else {
        rendered(note)
    }
}

pub open spec fn step_row_ok(row: StepRow, s: RunStep, atts: Seq<Attachment>, now: Timestamp) -> bool {
    &&& row.step == s
    &&& row.note_html@ == note_html_of(s.note@)
    &&& row.relative_reported@ == relative_at(s.reported_at@, now)
    &&& row.attachments@ == atts_for(atts, AttachmentTarget::Step, s.id)
}

pub fn step_row(s: &RunStep, atts: &[Attachment], now: Timestamp) -> (row: StepRow)
    requires
        now.nanos < 2_000_000_000,
    ensures
        step_row_ok(row, *s, atts@, now),
{
    let note_html = if s.note.as_str().is_empty() {
        String::new()
    } else {
        to_html(s.note.as_str())
    };
    StepRow {
        step: s.copied(),
        note_html,
        relative_reported: relative_time_at(s.reported_at.as_str(), now),
        attachments: attachments_for(atts, AttachmentTarget::Step, s.id),
    }
}

/// `result_str` of a rollup, or `none`.
pub open spec fn rollup_str_of(r: Option<Result>) -> Seq<char> {
    match r {
        Some(x) => result_str(x),
        None => "none"@,
    }
}

pub open spec fn test_row_ok(
    row: TestRow,
    t: TestSteps,
    atts: Seq<Attachment>,
    fb: Seq<Feedback>,
    now: Timestamp,
) -> bool {
    &&& row.test == t.test
    &&& row.rollup == rollup_of(t.steps@)
    &&& row.rollup_str@ == rollup_str_of(row.rollup)
    &&& row.steps@.len() == t.steps@.len()
    &&& forall|j: int| 0 <= j < row.steps@.len() ==> step_row_ok(#[trigger] row.steps@[j], t.steps@[j], atts, now)
    &&& row.counts == counts_of(t.steps@)
    &&& feedback_items_ok(row.feedback@, feedback_for(fb, FeedbackTarget::Test, t.test.id), now)
}

pub proof fn lemma_counts_of_push(s: Seq<RunStep>, x: RunStep)
    requires
        s.len() + 1 < i64::MAX,
    ensures
        counts_of(s.push(x)) == counts_plus(counts_of(s), x.result),
{
    assert(s.push(x).drop_last() =~= s);
    lemma_count_result_bound(s, Result::Pass);
    lemma_count_result_bound(s, Result::Fail);
    lemma_count_result_bound(s, Result::Warning);
    lemma_count_result_bound(s, Result::Skipped);
}

pub fn test_row(t: &TestSteps, atts: &[Attachment], fb: &[Feedback], now: Timestamp) -> (row: TestRow)
    requires
        now.nanos < 2_000_000_000,
        t.steps@.len() < i64::MAX,
    ensures
        test_row_ok(row, *t, atts@, fb@, now),
{
    let mut steps: Vec<StepRow> = Vec::new();
    let mut counts = ResultCounts::new();
    let mut j: usize = 0;
    while j < t.steps.len()
        invariant
            j <= t.steps@.len(),
            t.steps@.len() < i64::MAX,
            now.nanos < 2_000_000_000,
            steps@.len() == j,
            forall|k: int| 0 <= k < j ==> step_row_ok(#[trigger] steps@[k], t.steps@[k], atts@, now),
            counts == counts_of(t.steps@.take(j as int)),
        decreases t.steps@.len() - j,
    {
        proof {
            lemma_count_result_bound(t.steps@.take(j as int), Result::Pass);
            lemma_count_result_bound(t.steps@.take(j as int), Result::Fail);
            lemma_count_result_bound(t.steps@.take(j as int), Result::Warning);
            lemma_count_result_bound(t.steps@.take(j as int), Result::Skipped);
            assert(t.steps@.take(j + 1) =~= t.steps@.take(j as int).push(t.steps@[j as int]));
            lemma_counts_of_push(t.steps@.take(j as int), t.steps@[j as int]);
        }
        counts.add(t.steps[j].result);
        steps.push(step_row(&t.steps[j], atts, now));
        j = j + 1;
    }
    assert(t.steps@.take(j as int) =~= t.steps@);
    let r = rollup(t.steps.as_slice());
    let rollup_str = match r {
        Some(x) => string_from(x.as_str()),
        None => string_from("none"),
    };
    TestRow {
        test: t.test.copied(),
        rollup: r,
        rollup_str,
        steps,
        counts,
        feedback: feedback_items(fb, FeedbackTarget::Test, t.test.id, now),
    }
}

/// `[Kind] body`, the text copied by the dashboard's copy button.
pub open spec fn copy_text_of(n: RunNote) -> Seq<char> {
    "["@ + kind_label(n.kind) + "] "@ + n.text@
}

pub open spec fn note_row_ok(
    row: NoteRow,
    n: RunNote,
    atts: Seq<Attachment>,
    fb: Seq<Feedback>,
    now: Timestamp,
) -> bool {
    &&& row.note == n
    &&& row.text_html@ == rendered(n.text@)
    &&& row.relative_reported@ == relative_at(n.reported_at@, now)
    &&& row.copy_text@ == copy_text_of(n)
    &&& row.attachments@ == atts_for(atts, AttachmentTarget::Note, n.id)
    &&& feedback_items_ok(row.feedback@, feedback_for(fb, FeedbackTarget::Note, n.id), now)
}

pub fn note_row(n: &RunNote, atts: &[Attachment], fb: &[Feedback], now: Timestamp) -> (row: NoteRow)
    requires
        now.nanos < 2_000_000_000,
    ensures
        note_row_ok(row, *n, atts@, fb@, now),
{
    let mut copy_text = string_from("[");
    push_str(&mut copy_text, n.kind.label());
    push_str(&mut copy_text, "] ");
    push_str(&mut copy_text, n.text.as_str());
    NoteRow {
        note: n.copied(),
        text_html: to_html(n.text.as_str()),
        relative_reported: relative_time_at(n.reported_at.as_str(), now),
        copy_text,
        attachments: attachments_for(atts, AttachmentTarget::Note, n.id),
        feedback: feedback_items(fb, FeedbackTarget::Note, n.id, now),
    }
}

pub open spec fn review_row_ok(row: ReviewRow, r: Review, now: Timestamp) -> bool {
    &&& row.review == r
    &&& row.text_html@ == rendered(r.text@)
    &&& row.relative_created@ == relative_at(r.created_at@, now)
}

pub fn review_row(r: &Review, now: Timestamp) -> (row: ReviewRow)
    requires
        now.nanos < 2_000_000_000,
    ensures
        review_row_ok(row, *r, now),
{
    ReviewRow {
        text_html: to_html(r.text.as_str()),
        relative_created: relative_time_at(r.created_at.as_str(), now),
        review: r.copied(),
    }
}

// ---------------------------------------------------------------------------
// Triage order of notes
// ---------------------------------------------------------------------------

/// The notes of kind `k`, in their order.
pub open spec fn notes_of_kind(notes: Seq<RunNote>, k: Kind) -> Seq<RunNote>
    decreases notes.len(),
{
    if notes.len() == 0 {
        Seq::empty()
    } else {
        let h = notes_of_kind(notes.drop_last(), k);
        if notes.last().kind == k {
            h.push(notes.last())
        } else {
            h
        }
    }
}

/// Bugs first, then polish, questions and information; chronological
/// within each kind (a stable sort by `sort_priority`).
pub open spec fn triage_order(notes: Seq<RunNote>) -> Seq<RunNote> {
    notes_of_kind(notes, Kind::Bug) + notes_of_kind(notes, Kind::Polish) + notes_of_kind(
        notes,
        Kind::Question,
    ) + notes_of_kind(notes, Kind::Info)
}

fn push_notes_of_kind(out: &mut Vec<RunNote>, notes: &[RunNote], k: Kind)
    ensures
        final(out)@ == old(out)@ + notes_of_kind(notes@, k),
{
    let ghost start = out@;
    let mut i: usize = 0;
    while i < notes.len()
        invariant
            i <= notes@.len(),
            out@ == start + notes_of_kind(notes@.take(i as int), k),
        decreases notes@.len() - i,
    {
        assert(notes@.take(i + 1).drop_last() =~= notes@.take(i as int));
        if notes[i].kind == k {
            out.push(notes[i].copied());
            assert(out@ =~= start + notes_of_kind(notes@.take(i + 1), k));
        }
        i = i + 1;
    }
    assert(notes@.take(i as int) =~= notes@);
}

/// The notes sorted by triage priority, chronological within each kind.
pub fn triage_notes(notes: &[RunNote]) -> (r: Vec<RunNote>)
    ensures
        r@ == triage_order(notes@),
{
    let mut r: Vec<RunNote> = Vec::new();
    push_notes_of_kind(&mut r, notes, Kind::Bug);
    push_notes_of_kind(&mut r, notes, Kind::Polish);
    push_notes_of_kind(&mut r, notes, Kind::Question);
    push_notes_of_kind(&mut r, notes, Kind::Info);
    assert(r@ =~= triage_order(notes@));
    r
}

/// Number of out-of-scope notes (the findings filed outside the brief).
pub open spec fn count_out(notes: Seq<RunNote>) -> nat
    decreases notes.len(),
{
    if notes.len() == 0 {
        0
    } else {
        count_out(notes.drop_last()) + if notes.last().scope == Scope::Out {
            1nat
        } else {
            0nat
        }
    }
}

/// The number of out-of-scope notes: the findings `end` reports.
pub fn count_out_of_scope(notes: &[RunNote]) -> (n: usize)
    ensures
        n == count_out(notes@),
{
    let mut n: usize = 0;
    let mut i: usize = 0;
    while i < notes.len()
        invariant
            i <= notes@.len(),
            n <= i,
            n == count_out(notes@.take(i as int)),
        decreases notes@.len() - i,
    {
        assert(notes@.take(i + 1).drop_last() =~= notes@.take(i as int));
        if notes[i].scope == Scope::Out {
            n = n + 1;
        }
        i = i + 1;
    }
    assert(notes@.take(i as int) =~= notes@);
    n
}

// ---------------------------------------------------------------------------
// The whole page
// ---------------------------------------------------------------------------

/// Every step attempt of every test, test by test.
pub open spec fn all_steps(tests: Seq<TestSteps>) -> Seq<RunStep>
    decreases tests.len(),
{
    if tests.len() == 0 {
        Seq::empty()
    } else {
        all_steps(tests.drop_last()) + tests.last().steps@
    }
}

proof fn lemma_all_steps_prefix(tests: Seq<TestSteps>, i: int)
    requires
        0 <= i <= tests.len(),
    ensures
        all_steps(tests.take(i)).len() <= all_steps(tests).len(),
    decreases tests.len() - i,
{
    if i < tests.len() {
        lemma_all_steps_prefix(tests, i + 1);
        assert(tests.take(i + 1).drop_last() =~= tests.take(i));
    } else {
        assert(tests.take(i) =~= tests);
    }
}

proof fn lemma_failing_steps_bound(rows: Seq<StepRow>)
    ensures
        failing_in_steps(rows) <= rows.len(),
    decreases rows.len(),
{
    if rows.len() > 0 {
        lemma_failing_steps_bound(rows.drop_last());
    }
}

proof fn lemma_failing_tests_bound(rows: Seq<TestRow>, tests: Seq<TestSteps>)
    requires
        rows.len() == tests.len(),
        forall|i: int| 0 <= i < rows.len() ==> #[trigger] rows[i].steps@.len() == tests[i].steps@.len(),
    ensures
        failing_in_tests(rows) <= all_steps(tests).len(),
    decreases rows.len(),
{
    if rows.len() > 0 {
        let n = (rows.len() - 1) as int;
        assert(rows.drop_last().len() == tests.drop_last().len());
        assert forall|i: int| 0 <= i < rows.drop_last().len() implies #[trigger] rows.drop_last()[i].steps@.len() == tests.drop_last()[i].steps@.len() by {
            assert(rows.drop_last()[i] == rows[i]);
            assert(tests.drop_last()[i] == tests[i]);
        }
        lemma_failing_tests_bound(rows.drop_last(), tests.drop_last());
        lemma_failing_steps_bound(rows.last().steps@);
        assert(rows.last().steps@.len() == tests[n].steps@.len());
    }
}

proof fn lemma_latest_failing_tests_bound(rows: Seq<TestRow>, tests: Seq<TestSteps>)
    requires
        rows.len() == tests.len(),
        forall|i: int| 0 <= i < rows.len() ==> #[trigger] rows[i].steps@.len() == tests[i].steps@.len(),
    ensures
        latest_failing_in_tests(rows) <= all_steps(tests).len(),
    decreases rows.len(),
{
    if rows.len() > 0 {
        let n = (rows.len() - 1) as int;
        assert forall|i: int| 0 <= i < rows.drop_last().len() implies #[trigger] rows.drop_last()[i].steps@.len() == tests.drop_last()[i].steps@.len() by {
            assert(rows.drop_last()[i] == rows[i]);
            assert(tests.drop_last()[i] == tests[i]);
        }
        lemma_latest_failing_tests_bound(rows.drop_last(), tests.drop_last());
        lemma_latest_failing_count_bound(rows.last().steps@, rows.last().steps@.len() as int);
        assert(rows.last().steps@.len() == tests[n].steps@.len());
    }
}

pub open spec fn tests_ok(
    rows: Seq<TestRow>,
    tests: Seq<TestSteps>,
    atts: Seq<Attachment>,
    fb: Seq<Feedback>,
    now: Timestamp,
) -> bool {
    &&& rows.len() == tests.len()
    &&& forall|i: int| 0 <= i < rows.len() ==> test_row_ok(#[trigger] rows[i], tests[i], atts, fb, now)
}

pub open spec fn notes_ok(
    rows: Seq<NoteRow>,
    notes: Seq<RunNote>,
    atts: Seq<Attachment>,
    fb: Seq<Feedback>,
    now: Timestamp,
) -> bool {
    &&& rows.len() == notes.len()
    &&& forall|i: int| 0 <= i < rows.len() ==> note_row_ok(#[trigger] rows[i], notes[i], atts, fb, now)
}

pub open spec fn reviews_ok(rows: Seq<ReviewRow>, reviews: Seq<Review>, now: Timestamp) -> bool {
    &&& rows.len() == reviews.len()
    &&& forall|i: int| 0 <= i < rows.len() ==> review_row_ok(#[trigger] rows[i], reviews[i], now)
}

/// What the run page shows of a run, as of `now`.
pub open spec fn run_body_ok(
    b: RunBody,
    run: Run,
    tests: Seq<TestSteps>,
    notes: Seq<RunNote>,
    reviews: Seq<Review>,
    atts: Seq<Attachment>,
    fb: Seq<Feedback>,
    now: Timestamp,
) -> bool {
    let sorted = triage_order(notes);
    &&& b.run == run
    &&& b.description_html@ == note_html_of(run.description@)
    &&& b.relative_started@ == relative_at(run.started_at@, now)
    &&& match run.completed_at {
        Some(c) => b.relative_completed matches Some(x) && x@ == relative_at(c@, now),
        None => b.relative_completed is None,
    }
    &&& tests_ok(b.tests@, tests, atts, fb, now)
    &&& notes_ok(b.notes@, sorted, atts, fb, now)
    &&& reviews_ok(b.reviews@, reviews, now)
    &&& b.counts == counts_of(all_steps(tests))
    &&& b.rollup == rollup_of(all_steps(tests))
    &&& b.findings == count_out(sorted)
    &&& b.kind_counts == kind_counts_of(sorted)
    &&& b.pr_summary_md@ == pr_summary(run, b.rollup, b.counts, b.notes@, b.tests@, b.reviews@)
    &&& b.pr_summary_html@ == rendered(b.pr_summary_md@)
}

fn build_test_rows(
    tests: &[TestSteps],
    atts: &[Attachment],
    fb: &[Feedback],
    now: Timestamp,
) -> (r: (Vec<TestRow>, Vec<RunStep>, ResultCounts))
    requires
        now.nanos < 2_000_000_000,
        all_steps(tests@).len() < i64::MAX,
    ensures
        tests_ok(r.0@, tests@, atts@, fb@, now),
        r.1@ == all_steps(tests@),
        r.2 == counts_of(all_steps(tests@)),
{
    let mut rows: Vec<TestRow> = Vec::new();
    let mut all: Vec<RunStep> = Vec::new();
    let mut counts = ResultCounts::new();
    let mut i: usize = 0;
    while i < tests.len()
        invariant
            i <= tests@.len(),
            now.nanos < 2_000_000_000,
            all_steps(tests@).len() < i64::MAX,
            tests_ok(rows@, tests@.take(i as int), atts@, fb@, now),
            all@ == all_steps(tests@.take(i as int)),
            counts == counts_of(all@),
        decreases tests@.len() - i,
    {
        let t = &tests[i];
        proof {
            assert(tests@.take(i + 1).drop_last() =~= tests@.take(i as int));
            lemma_all_steps_prefix(tests@, i + 1);
            assert(all_steps(tests@.take(i + 1)) == all_steps(tests@.take(i as int)) + t.steps@);
        }
        let ghost base = all@;
        let mut j: usize = 0;
        while j < t.steps.len()
            invariant
                j <= t.steps@.len(),
                base.len() + t.steps@.len() < i64::MAX,
                all@ == base + t.steps@.take(j as int),
                counts == counts_of(all@),
            decreases t.steps@.len() - j,
        {
            proof {
                assert(t.steps@.take(j + 1) =~= t.steps@.take(j as int).push(t.steps@[j as int]));
                assert(all@.push(t.steps@[j as int]) =~= base + t.steps@.take(j + 1));
                lemma_counts_of_push(all@, t.steps@[j as int]);
                lemma_count_result_bound(all@, Result::Pass);
                lemma_count_result_bound(all@, Result::Fail);
                lemma_count_result_bound(all@, Result::Warning);
                lemma_count_result_bound(all@, Result::Skipped);
            }
            counts.add(t.steps[j].result);
            all.push(t.steps[j].copied());
            j = j + 1;
        }
        assert(t.steps@.take(j as int) =~= t.steps@);
        let row = test_row(t, atts, fb, now);
        let ghost prev_rows = rows@;
        rows.push(row);
        proof {
            assert forall|k: int| 0 <= k < rows@.len() implies test_row_ok(#[trigger] rows@[k], tests@.take(i + 1)[k], atts@, fb@, now) by {
                if k < i {
                    assert(rows@[k] == prev_rows[k]);
                    assert(tests@.take(i + 1)[k] == tests@.take(i as int)[k]);
                }
            }
        }
        i = i + 1;
    }
    assert(tests@.take(i as int) =~= tests@);
    (rows, all, counts)
}

fn build_note_rows(
    notes: &[RunNote],
    atts: &[Attachment],
    fb: &[Feedback],
    now: Timestamp,
) -> (r: (Vec<NoteRow>, usize, KindCounts))
    requires
        now.nanos < 2_000_000_000,
        notes@.len() < i64::MAX,
    ensures
        notes_ok(r.0@, notes@, atts@, fb@, now),
        r.1 == count_out(notes@),
        r.1 <= notes@.len(),
        r.2 == kind_counts_of(notes@),
{
    let mut rows: Vec<NoteRow> = Vec::new();
    let mut findings: usize = 0;
    let mut kc = KindCounts::new();
    let mut i: usize = 0;
    while i < notes.len()
        invariant
            i <= notes@.len(),
            notes@.len() < i64::MAX,
            now.nanos < 2_000_000_000,
            notes_ok(rows@, notes@.take(i as int), atts@, fb@, now),
            findings == count_out(notes@.take(i as int)),
            findings <= i,
            kc == kind_counts_of(notes@.take(i as int)),
        decreases notes@.len() - i,
    {
        let n = &notes[i];
        proof {
            let p = notes@.take(i as int);
            assert(notes@.take(i + 1).drop_last() =~= p);
            lemma_count_kind_bound(p, Kind::Bug);
            lemma_count_kind_bound(p, Kind::Polish);
            lemma_count_kind_bound(p, Kind::Question);
            lemma_count_kind_bound(p, Kind::Info);
        }
        kc.add(n.kind);
        if n.scope == Scope::Out {
            findings = findings + 1;
        }
        let row = note_row(n, atts, fb, now);
        let ghost prev_rows = rows@;
        rows.push(row);
        proof {
            assert forall|k: int| 0 <= k < rows@.len() implies note_row_ok(#[trigger] rows@[k], notes@.take(i + 1)[k], atts@, fb@, now) by {
                if k < i {
                    assert(rows@[k] == prev_rows[k]);
                    assert(notes@.take(i + 1)[k] == notes@.take(i as int)[k]);
                }
            }
        }
        i = i + 1;
    }
    assert(notes@.take(i as int) =~= notes@);
    (rows, findings, kc)
}

fn build_review_rows(reviews: &[Review], now: Timestamp) -> (r: Vec<ReviewRow>)
    requires
        now.nanos < 2_000_000_000,
    ensures
        reviews_ok(r@, reviews@, now),
{
    let mut rows: Vec<ReviewRow> = Vec::new();
    let mut i: usize = 0;
    while i < reviews.len()
        invariant
            i <= reviews@.len(),
            now.nanos < 2_000_000_000,
            rows@.len() == i,
            forall|k: int| 0 <= k < i ==> review_row_ok(#[trigger] rows@[k], reviews@[k], now),
        decreases reviews@.len() - i,
    {
        rows.push(review_row(&reviews[i], now));
        i = i + 1;
    }
    rows
}

/// Assembles the run page from the records of one run read at `now`:
/// `tests` in report order with their steps oldest first, `notes`
/// chronological, `reviews` newest first, every attachment and every piece
/// of feedback of the run.
pub fn assemble_run_body(
    run: &Run,
    tests: &[TestSteps],
    notes: &[RunNote],
    reviews: &[Review],
    atts: &[Attachment],
    fb: &[Feedback],
    now: Timestamp,
) -> (b: RunBody)
    requires
        now.nanos < 2_000_000_000,
        all_steps(tests@).len() < i64::MAX,
        all_steps(tests@).len() < usize::MAX,
        notes@.len() < i64::MAX,
    ensures
        run_body_ok(b, *run, tests@, notes@, reviews@, atts@, fb@, now),
{
    let relative_started = relative_time_at(run.started_at.as_str(), now);
    let relative_completed = match &run.completed_at {
        Some(c) => Some(relative_time_at(c.as_str(), now)),
        None => None,
    };
    let (tests_out, all, counts) = build_test_rows(tests, atts, fb, now);
    let sorted = triage_notes(notes);
    proof {
        lemma_triage_len(notes@);
    }
    let (notes_out, findings, kind_counts) = build_note_rows(sorted.as_slice(), atts, fb, now);
    let run_rollup = rollup(all.as_slice());
    let reviews_out = build_review_rows(reviews, now);
    proof {
        lemma_failing_tests_bound(tests_out@, tests@);
        lemma_latest_failing_tests_bound(tests_out@, tests@);
        assert forall|k: int| 0 <= k < tests_out@.len() implies #[trigger] tests_out@[k].steps@.len() < usize::MAX by {
            assert(test_row_ok(tests_out@[k], tests@[k], atts@, fb@, now));
            lemma_steps_within(tests@, k);
        }
    }
    let pr_summary_md = render_pr_summary(
        run,
        run_rollup,
        &counts,
        notes_out.as_slice(),
        tests_out.as_slice(),
        reviews_out.as_slice(),
    );
    let pr_summary_html = to_html(pr_summary_md.as_str());
    let description_html = if run.description.as_str().is_empty() {
        String::new()
    } else {
        to_html(run.description.as_str())
    };
    RunBody {
        run: run.copied(),
        description_html,
        relative_started,
        relative_completed,
        tests: tests_out,
        notes: notes_out,
        reviews: reviews_out,
        counts,
        rollup: run_rollup,
        findings: findings as i64,
        kind_counts,
        pr_summary_md,
        pr_summary_html,
    }
}

proof fn lemma_notes_of_kind_len(notes: Seq<RunNote>, k: Kind)
    ensures
        notes_of_kind(notes, k).len() == count_kind(notes, k),
    decreases notes.len(),
{
    if notes.len() > 0 {
        lemma_notes_of_kind_len(notes.drop_last(), k);
    }
}

proof fn lemma_kinds_partition(notes: Seq<RunNote>)
    ensures
        count_kind(notes, Kind::Bug) + count_kind(notes, Kind::Polish) + count_kind(notes, Kind::Question)
            + count_kind(notes, Kind::Info) == notes.len(),
    decreases notes.len(),
{
    if notes.len() > 0 {
        lemma_kinds_partition(notes.drop_last());
    }
}

/// Triage ordering keeps every note: it has as many notes as the input.
pub proof fn lemma_triage_len(notes: Seq<RunNote>)
    ensures
        triage_order(notes).len() == notes.len(),
{
    lemma_notes_of_kind_len(notes, Kind::Bug);
    lemma_notes_of_kind_len(notes, Kind::Polish);
    lemma_notes_of_kind_len(notes, Kind::Question);
    lemma_notes_of_kind_len(notes, Kind::Info);
    lemma_kinds_partition(notes);
}

proof fn lemma_notes_of_kind_kind(notes: Seq<RunNote>, k: Kind)
    ensures
        forall|i: int| 0 <= i < notes_of_kind(notes, k).len() ==> (#[trigger] notes_of_kind(notes, k)[i]).kind == k,
    decreases notes.len(),
{
    if notes.len() > 0 {
        lemma_notes_of_kind_kind(notes.drop_last(), k);
    }
}

/// Triage ordering puts bugs first: along the sorted notes the kind's
/// priority never goes down.
pub proof fn lemma_triage_sorted(notes: Seq<RunNote>)
    ensures
        forall|i: int, j: int|
            0 <= i < j < triage_order(notes).len() ==> kind_priority(
                (#[trigger] triage_order(notes)[i]).kind,
            ) <= kind_priority((#[trigger] triage_order(notes)[j]).kind),
{
    let b = notes_of_kind(notes, Kind::Bug);
    let p = notes_of_kind(notes, Kind::Polish);
    let q = notes_of_kind(notes, Kind::Question);
    let f = notes_of_kind(notes, Kind::Info);
    lemma_notes_of_kind_kind(notes, Kind::Bug);
    lemma_notes_of_kind_kind(notes, Kind::Polish);
    lemma_notes_of_kind_kind(notes, Kind::Question);
    lemma_notes_of_kind_kind(notes, Kind::Info);
    let t = triage_order(notes);
    assert forall|i: int| 0 <= i < t.len() implies kind_priority((#[trigger] t[i]).kind) == (if i < b.len() {
        0int
    } else if i < b.len() + p.len() {
        1int
    } else if i < b.len() + p.len() + q.len() {
        2int
    } else {
        3int
    }) by {
        if i < b.len() {
            assert(t[i] == b[i]);
        } else if i < b.len() + p.len() {
            assert(t[i] == p[i - b.len()]);
        } else if i < b.len() + p.len() + q.len() {
            assert(t[i] == q[i - b.len() - p.len()]);
        } else {
            assert(t[i] == f[i - b.len() - p.len() - q.len()]);
        }
    }
}

/// Triage ordering keeps every note: each kind occurs in the sorted notes
/// exactly as often as in the input.
pub proof fn lemma_triage_keeps_kinds(notes: Seq<RunNote>, k: Kind)
    ensures
        notes_of_kind(triage_order(notes), k) == notes_of_kind(notes, k),
{
    lemma_notes_of_kind_kind(notes, Kind::Bug);
    lemma_notes_of_kind_kind(notes, Kind::Polish);
    lemma_notes_of_kind_kind(notes, Kind::Question);
    lemma_notes_of_kind_kind(notes, Kind::Info);
    let b = notes_of_kind(notes, Kind::Bug);
    let p = notes_of_kind(notes, Kind::Polish);
    let q = notes_of_kind(notes, Kind::Question);
    let f = notes_of_kind(notes, Kind::Info);
    lemma_notes_of_kind_concat(b + p + q, f, k);
    lemma_notes_of_kind_concat(b + p, q, k);
    lemma_notes_of_kind_concat(b, p, k);
    lemma_notes_of_kind_filtered(notes, Kind::Bug, k);
    lemma_notes_of_kind_filtered(notes, Kind::Polish, k);
    lemma_notes_of_kind_filtered(notes, Kind::Question, k);
    lemma_notes_of_kind_filtered(notes, Kind::Info, k);
    match k {
        Kind::Bug => {
            assert(notes_of_kind(triage_order(notes), k) =~= b);
        },
        Kind::Polish => {
            assert(notes_of_kind(triage_order(notes), k) =~= p);
        },
        Kind::Question => {
            assert(notes_of_kind(triage_order(notes), k) =~= q);
        },
        Kind::Info => {
            assert(notes_of_kind(triage_order(notes), k) =~= f);
        },
    }
}

proof fn lemma_notes_of_kind_concat(a: Seq<RunNote>, b: Seq<RunNote>, k: Kind)
    ensures
        notes_of_kind(a + b, k) == notes_of_kind(a, k) + notes_of_kind(b, k),
    decreases b.len(),
{
    if b.len() == 0 {
        assert(a + b =~= a);
        assert(notes_of_kind(a, k) + notes_of_kind(b, k) =~= notes_of_kind(a, k));
    } else {
        assert((a + b).drop_last() =~= a + b.drop_last());
        assert((a + b).last() == b.last());
        lemma_notes_of_kind_concat(a, b.drop_last(), k);
        if b.last().kind == k {
            assert(notes_of_kind(a, k) + notes_of_kind(b, k) =~= (notes_of_kind(a, k) + notes_of_kind(b.drop_last(), k)).push(b.last()));
        } else {
            assert(notes_of_kind(a, k) + notes_of_kind(b, k) =~= notes_of_kind(a, k) + notes_of_kind(b.drop_last(), k));
        }
    }
}

/// Selecting kind `k` from the notes of kind `j` keeps them all when the
/// kinds agree and none otherwise.
proof fn lemma_notes_of_kind_filtered(notes: Seq<RunNote>, j: Kind, k: Kind)
    ensures
        notes_of_kind(notes_of_kind(notes, j), k) == if j == k {
            notes_of_kind(notes, j)
        } else {
            Seq::empty()
        },
    decreases notes.len(),
{
    if notes.len() > 0 {
        lemma_notes_of_kind_filtered(notes.drop_last(), j, k);
        let h = notes_of_kind(notes.drop_last(), j);
        if notes.last().kind == j {
            assert(h.push(notes.last()).drop_last() =~= h);
        }
    } else {
        assert(notes_of_kind(notes, j) =~= Seq::<RunNote>::empty());
    }
}

proof fn lemma_steps_within(tests: Seq<TestSteps>, k: int)
    requires
        0 <= k < tests.len(),
    ensures
        tests[k].steps@.len() <= all_steps(tests).len(),
    decreases tests.len(),
{
    if k < tests.len() - 1 {
        lemma_steps_within(tests.drop_last(), k);
        assert(tests.drop_last()[k] == tests[k]);
    }
}

/// A row shows exactly the screenshots stored for it: the attachments
/// picked for target `kind` and `id` are those of `atts` with that target
/// kind and that target id, in stored order, and nothing else.
pub proof fn lemma_attachments_match_their_target(atts: Seq<Attachment>, kind: AttachmentTarget, id: i64)
    ensures
        atts_for(atts, kind, id) == atts.filter(
            |a: Attachment| a.target_kind == kind && a.target_id == id,
        ),
        forall|a: Attachment|
            #[trigger] atts_for(atts, kind, id).contains(a) <==> (atts.contains(a) && a.target_kind
                == kind && a.target_id == id),
    decreases atts.len(),
{
    reveal(Seq::filter);
    let pred = |a: Attachment| a.target_kind == kind && a.target_id == id;
    if atts.len() > 0 {
        lemma_attachments_match_their_target(atts.drop_last(), kind, id);
        assert(atts_for(atts, kind, id) == atts.filter(pred));
    } else {
        assert(atts_for(atts, kind, id) =~= atts.filter(pred));
    }
    assert forall|a: Attachment| #[trigger] atts_for(atts, kind, id).contains(a) <==> (atts.contains(a)
        && a.target_kind == kind && a.target_id == id) by {
        let f = atts.filter(pred);
        if f.contains(a) {
            let k = choose|k: int| 0 <= k < f.len() && f[k] == a;
            atts.lemma_filter_pred(pred, k);
            atts.lemma_filter_contains_rev(pred, a);
        }
        if atts.contains(a) && a.target_kind == kind && a.target_id == id {
            let k = choose|k: int| 0 <= k < atts.len() && atts[k] == a;
            atts.lemma_filter_contains(pred, k);
        }
    }
}

/// A step row lists only screenshots stored on that step, and a note row
/// only those stored on that note: a step's row never shows a note's
/// screenshot even when the two ids are equal.
pub proof fn lemma_rows_show_their_own_screenshots(
    srow: StepRow,
    s: RunStep,
    nrow: NoteRow,
    n: RunNote,
    atts: Seq<Attachment>,
    fb: Seq<Feedback>,
    now: Timestamp,
)
    requires
        step_row_ok(srow, s, atts, now),
        note_row_ok(nrow, n, atts, fb, now),
    ensures
        forall|a: Attachment|
            #[trigger] srow.attachments@.contains(a) <==> (atts.contains(a) && a.target_kind
                == AttachmentTarget::Step && a.target_id == s.id),
        forall|a: Attachment|
            #[trigger] nrow.attachments@.contains(a) <==> (atts.contains(a) && a.target_kind
                == AttachmentTarget::Note && a.target_id == n.id),
{
    lemma_attachments_match_their_target(atts, AttachmentTarget::Step, s.id);
    lemma_attachments_match_their_target(atts, AttachmentTarget::Note, n.id);
}

/// The findings count is the number of out-of-scope notes: it equals the
/// number of notes whose scope is out, and an in-scope note never adds to
/// it while an out-of-scope note adds one.
pub proof fn lemma_findings_count_out_of_scope_notes(notes: Seq<RunNote>, n: RunNote)
    ensures
        count_out(notes) == notes.filter(|x: RunNote| x.scope == Scope::Out).len(),
        n.scope == Scope::In ==> count_out(notes.push(n)) == count_out(notes),
        n.scope == Scope::Out ==> count_out(notes.push(n)) == count_out(notes) + 1,
        count_out(notes) <= notes.len(),
    decreases notes.len(),
{
    reveal(Seq::filter);
    let pred = |x: RunNote| x.scope == Scope::Out;
    assert(notes.push(n).drop_last() =~= notes);
    if notes.len() > 0 {
        lemma_findings_count_out_of_scope_notes(notes.drop_last(), n);
        assert(count_out(notes) == notes.filter(pred).len());
    }
}

/// Feedback shows on the target it was left on: the feedback picked for
/// target `kind` and `id` is the feedback with that target kind and id, in
/// stored order, and nothing else.
pub proof fn lemma_feedback_matches_its_target(fb: Seq<Feedback>, kind: FeedbackTarget, id: i64)
    ensures
        feedback_for(fb, kind, id) == fb.filter(|f: Feedback| f.target_kind == kind && f.target_id == id),
    decreases fb.len(),
{
    reveal(Seq::filter);
    if fb.len() > 0 {
        lemma_feedback_matches_its_target(fb.drop_last(), kind, id);
    }
}

/// The notes of one kind are the notes of that kind, in order: within each
/// kind the triage order keeps the notes' chronological order.
pub proof fn lemma_notes_of_kind_in_order(notes: Seq<RunNote>, k: Kind)
    ensures
        notes_of_kind(notes, k) == notes.filter(|n: RunNote| n.kind == k),
    decreases notes.len(),
{
    reveal(Seq::filter);
    if notes.len() > 0 {
        lemma_notes_of_kind_in_order(notes.drop_last(), k);
    }
}

} // verus!
