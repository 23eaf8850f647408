//! The run page's view model and the two text reports built from it: the
//! PR summary and the markdown export.
use vstd::prelude::*;

use crate::models::{
    is_latest, kind_emoji, kind_label, result_label, step_is_latest, Scope, review_kind_emoji, review_kind_label,
    review_verdict_label, safe_link, Attachment, Feedback, Kind, Result, Review, Run, RunNote,
    RunStep, RunTest,
};
use crate::text::{
    concat_map, dec_int, dec_nat, flatten_newlines, join, join_strings, lemma_concat_map_all,
    lemma_concat_map_step, lines, one_line, push_i64, push_replacing_newlines, push_str,
    push_usize, replace_newlines, split_lines, string_from, trim, trimmed,
};

verus! {

// ---------------------------------------------------------------------------
// Counters
// ---------------------------------------------------------------------------

/// Steps per result.
#[derive(Debug, Clone, Copy, Default)]
pub struct ResultCounts {
    pub pass: i64,
    pub fail: i64,
    pub warning: i64,
    pub skipped: i64,
}

/// `c` with the counter for `r` raised by one.
pub open spec fn counts_plus(c: ResultCounts, r: Result) -> ResultCounts {
    match r {
        Result::Pass => ResultCounts { pass: (c.pass + 1) as i64, ..c },
        Result::Fail => ResultCounts { fail: (c.fail + 1) as i64, ..c },
        Result::Warning => ResultCounts { warning: (c.warning + 1) as i64, ..c },
        Result::Skipped => ResultCounts { skipped: (c.skipped + 1) as i64, ..c },
    }
}

/// Number of steps with result `r`.
pub open spec fn count_result(steps: Seq<RunStep>, r: Result) -> nat
    decreases steps.len(),
{
    if steps.len() == 0 {
        0
    } else {
        count_result(steps.drop_last(), r) + if steps.last().result == r {
            1nat
        } else {
            0nat
        }
    }
}

pub proof fn lemma_count_result_bound(steps: Seq<RunStep>, r: Result)
    ensures
        count_result(steps, r) <= steps.len(),
    decreases steps.len(),
{
    if steps.len() > 0 {
        lemma_count_result_bound(steps.drop_last(), r);
    }
}

/// Every step is counted once: the four per-result counts add up to the
/// number of steps.
pub proof fn lemma_counts_cover_steps(steps: Seq<RunStep>)
    ensures
        count_result(steps, Result::Pass) + count_result(steps, Result::Fail) + count_result(
            steps,
            Result::Warning,
        ) + count_result(steps, Result::Skipped) == steps.len(),
    decreases steps.len(),
{
    if steps.len() > 0 {
        lemma_counts_cover_steps(steps.drop_last());
    }
}

/// The per-result counts and per-kind counts count directly: the number
/// counted for result `r` is the number of steps with result `r`, and the
/// number counted for kind `k` the number of notes of kind `k`.
pub proof fn lemma_counts_count_directly(steps: Seq<RunStep>, r: Result, notes: Seq<RunNote>, k: Kind)
    ensures
        count_result(steps, r) == steps.filter(|s: RunStep| s.result == r).len(),
        count_kind(notes, k) == notes.filter(|n: RunNote| n.kind == k).len(),
    decreases steps.len() + notes.len(),
{
    reveal(Seq::filter);
    if steps.len() > 0 {
        lemma_counts_count_directly(steps.drop_last(), r, notes, k);
    } else if notes.len() > 0 {
        lemma_counts_count_directly(steps, r, notes.drop_last(), k);
    }
}

/// The counts of a list of steps.
pub open spec fn counts_of(steps: Seq<RunStep>) -> ResultCounts {
    ResultCounts {
        pass: count_result(steps, Result::Pass) as i64,
        fail: count_result(steps, Result::Fail) as i64,
        warning: count_result(steps, Result::Warning) as i64,
        skipped: count_result(steps, Result::Skipped) as i64,
    }
}

impl ResultCounts {
    pub fn new() -> (c: ResultCounts)
        ensures
            c == (ResultCounts { pass: 0, fail: 0, warning: 0, skipped: 0 }),
    {
        ResultCounts { pass: 0, fail: 0, warning: 0, skipped: 0 }
    }

    /// Counts one more step with result `r`.
    pub fn add(&mut self, r: Result)
        requires
            old(self).pass < i64::MAX,
            old(self).fail < i64::MAX,
            old(self).warning < i64::MAX,
            old(self).skipped < i64::MAX,
        ensures
            *final(self) == counts_plus(*old(self), r),
    {
        match r {
            Result::Pass => self.pass = self.pass + 1,
            Result::Fail => self.fail = self.fail + 1,
            Result::Warning => self.warning = self.warning + 1,
            Result::Skipped => self.skipped = self.skipped + 1,
        }
    }
}

/// Notes per kind; drives the Findings column on the home table.
#[derive(Debug, Clone, Copy, Default)]
pub struct KindCounts {
    pub bug: i64,
    pub polish: i64,
    pub question: i64,
    pub info: i64,
}

pub open spec fn kind_counts_plus(c: KindCounts, k: Kind) -> KindCounts {
    match k {
        Kind::Bug => KindCounts { bug: (c.bug + 1) as i64, ..c },
        Kind::Polish => KindCounts { polish: (c.polish + 1) as i64, ..c },
        Kind::Question => KindCounts { question: (c.question + 1) as i64, ..c },
        Kind::Info => KindCounts { info: (c.info + 1) as i64, ..c },
    }
}

/// Number of notes of kind `k`.
pub open spec fn count_kind(notes: Seq<RunNote>, k: Kind) -> nat
    decreases notes.len(),
{
    if notes.len() == 0 {
        0
    } else {
        count_kind(notes.drop_last(), k) + if notes.last().kind == k {
            1nat
        } else {
            0nat
        }
    }
}

pub proof fn lemma_count_kind_bound(notes: Seq<RunNote>, k: Kind)
    ensures
        count_kind(notes, k) <= notes.len(),
    decreases notes.len(),
{
    if notes.len() > 0 {
        lemma_count_kind_bound(notes.drop_last(), k);
    }
}

pub open spec fn kind_counts_of(notes: Seq<RunNote>) -> KindCounts {
    KindCounts {
        bug: count_kind(notes, Kind::Bug) as i64,
        polish: count_kind(notes, Kind::Polish) as i64,
        question: count_kind(notes, Kind::Question) as i64,
        info: count_kind(notes, Kind::Info) as i64,
    }
}

impl KindCounts {
    pub fn new() -> (c: KindCounts)
        ensures
            c == (KindCounts { bug: 0, polish: 0, question: 0, info: 0 }),
    {
        KindCounts { bug: 0, polish: 0, question: 0, info: 0 }
    }

    /// Counts one more note of kind `k`.
    pub fn add(&mut self, k: Kind)
        requires
            old(self).bug < i64::MAX,
            old(self).polish < i64::MAX,
            old(self).question < i64::MAX,
            old(self).info < i64::MAX,
        ensures
            *final(self) == kind_counts_plus(*old(self), k),
    {
        match k {
            Kind::Bug => self.bug = self.bug + 1,
            Kind::Polish => self.polish = self.polish + 1,
            Kind::Question => self.question = self.question + 1,
            Kind::Info => self.info = self.info + 1,
        }
    }

    /// All notes counted.
    pub fn total(&self) -> (t: i64)
        requires
            self.bug + self.polish + self.question + self.info <= i64::MAX,
            self.bug >= 0,
            self.polish >= 0,
            self.question >= 0,
            self.info >= 0,
        ensures
            t == self.bug + self.polish + self.question + self.info,
    {
        self.bug + self.polish + self.question + self.info
    }
}

// ---------------------------------------------------------------------------
// View model
// ---------------------------------------------------------------------------

/// A piece of feedback with its rendered text.
pub struct FeedbackItem {
    pub feedback: Feedback,
    pub text_html: String,
    pub relative_created: String,
}

/// One step attempt as the run page shows it.
pub struct StepRow {
    pub step: RunStep,
    pub note_html: String,
    pub relative_reported: String,
    pub attachments: Vec<Attachment>,
}

/// One note as the run page shows it.
pub struct NoteRow {
    pub note: RunNote,
    pub text_html: String,
    pub relative_reported: String,
    /// Precomputed "[Kind] body" string for one-click copy.
    pub copy_text: String,
    pub attachments: Vec<Attachment>,
    pub feedback: Vec<FeedbackItem>,
}

/// One test with its steps as the run page shows it.
pub struct TestRow {
    pub test: RunTest,
    pub rollup: Option<Result>,
    pub rollup_str: String,
    pub steps: Vec<StepRow>,
    pub counts: ResultCounts,
    pub feedback: Vec<FeedbackItem>,
}

/// One review as the run page shows it.
pub struct ReviewRow {
    pub review: Review,
    pub text_html: String,
    pub relative_created: String,
}

/// Everything the run page and the markdown export show of one run.
pub struct RunBody {
    pub run: Run,
    pub description_html: String,
    pub relative_started: String,
    pub relative_completed: Option<String>,
    pub tests: Vec<TestRow>,
    pub notes: Vec<NoteRow>,
    pub reviews: Vec<ReviewRow>,
    pub counts: ResultCounts,
    pub rollup: Option<Result>,
    pub findings: i64,
    pub kind_counts: KindCounts,
    pub pr_summary_md: String,
    pub pr_summary_html: String,
}

// ---------------------------------------------------------------------------
// Pieces shared by the reports
// ---------------------------------------------------------------------------

/// `label` of a rollup, or `none` without steps.
pub open spec fn rollup_label_or(r: Option<Result>, none: Seq<char>) -> Seq<char> {
    match r {
        Some(x) => result_label(x),
        None => none,
    }
}

/// `"{pass} pass · {fail} fail · {warning} warn · {skipped} skip\n"`.
pub open spec fn counts_text(c: ResultCounts) -> Seq<char> {
    dec_int(c.pass as int) + " pass · "@ + dec_int(c.fail as int) + " fail · "@ + dec_int(
        c.warning as int,
    ) + " warn · "@ + dec_int(c.skipped as int) + " skip\n"@
}

/// Appends `counts_text(c)`.
pub fn push_counts(s: &mut String, c: &ResultCounts)
    ensures
        final(s)@ == old(s)@ + counts_text(*c),
{
    push_i64(s, c.pass);
    push_str(s, " pass · ");
    push_i64(s, c.fail);
    push_str(s, " fail · ");
    push_i64(s, c.warning);
    push_str(s, " warn · ");
    push_i64(s, c.skipped);
    push_str(s, " skip\n");
}

/// A note, step note or review text on one line, with surrounding
/// whitespace trimmed.
pub open spec fn flat_trimmed(t: Seq<char>) -> Seq<char> {
    trimmed(one_line(t))
}

fn push_flat_trimmed(s: &mut String, t: &str)
    ensures
        final(s)@ == old(s)@ + flat_trimmed(t@),
{
    let f = flatten_newlines(t);
    let g = trim(f.as_str());
    push_str(s, g.as_str());
}

// ---------------------------------------------------------------------------
// PR summary
// ---------------------------------------------------------------------------

/// The metadata bits of the summary's second paragraph.
pub open spec fn pr_meta_bits(run: Run) -> Seq<Seq<char>> {
    let branch = if run.branch@.len() > 0 {
        seq!["branch `"@ + run.branch@ + "`"@]
    } else {
        Seq::empty()
    };
    let commit = if run.commit_sha@.len() > 0 {
        seq!["commit `"@ + run.commit_sha@ + "`"@]
    } else {
        Seq::empty()
    };
    let pr = match run.pr_number {
        Some(n) => if safe_link(run.pr_url@) {
            seq!["PR [#"@ + dec_int(n as int) + "]("@ + run.pr_url@ + ")"@]
        } else {
            seq!["PR `#"@ + dec_int(n as int) + "`"@]
        },
        None => Seq::empty(),
    };
    let env = if run.env@.len() > 0 {
        seq!["env `"@ + run.env@ + "`"@]
    } else {
        Seq::empty()
    };
    let url = if run.url@.len() > 0 {
        seq!["url <"@ + run.url@ + ">"@]
    } else {
        Seq::empty()
    };
    let workdir = if run.workdir@.len() > 0 {
        seq!["workdir `"@ + run.workdir@ + "`"@]
    } else {
        Seq::empty()
    };
    branch + commit + pr + env + url + workdir
}

pub open spec fn review_bullet(r: ReviewRow) -> Seq<char> {
    "- "@ + review_kind_emoji(r.review.kind) + " **"@ + review_kind_label(r.review.kind) + " — "@
        + review_verdict_label(r.review.verdict) + "**: "@ + flat_trimmed(r.review.text@) + "\n"@
}

pub open spec fn review_bullets() -> spec_fn(ReviewRow) -> Seq<char> {
    |r: ReviewRow| review_bullet(r)
}

pub open spec fn finding_bullet(n: NoteRow) -> Seq<char> {
    "- "@ + kind_emoji(n.note.kind) + " **"@ + kind_label(n.note.kind) + "**: "@ + flat_trimmed(
        n.note.text@,
    ) + "\n"@
}

pub open spec fn finding_bullets() -> spec_fn(NoteRow) -> Seq<char> {
    |n: NoteRow| finding_bullet(n)
}

/// The bullet for one failing step of test `test`.
pub open spec fn failure_bullet(test: Seq<char>, step: RunStep) -> Seq<char> {
    let suffix = if step.attempt > 1 {
        " _(attempt "@ + dec_int(step.attempt as int) + ")_"@
    } else {
        Seq::empty()
    };
    let body = if step.note@.len() == 0 {
        "no note"@
    } else {
        flat_trimmed(step.note@)
    };
    "- **"@ + test + "** / "@ + step.name@ + suffix + ": "@ + body + "\n"@
}

/// The steps of a test's rows, in order.
pub open spec fn row_steps(steps: Seq<StepRow>) -> Seq<RunStep> {
    steps.map_values(|r: StepRow| r.step)
}

/// Row `i` is the attempt that counts for its step name, and it failed.
pub open spec fn latest_failing(steps: Seq<StepRow>, i: int) -> bool {
    is_latest(row_steps(steps), i) && steps[i].step.result == Result::Fail
}

/// The failure bullets of the first `k` rows of test `test`: one for each
/// row whose step failed on its latest attempt.
pub open spec fn latest_failure_bullets(test: Seq<char>, steps: Seq<StepRow>, k: int) -> Seq<char>
    decreases k,
{
    if k <= 0 {
        Seq::empty()
    } else {
        latest_failure_bullets(test, steps, k - 1) + if latest_failing(steps, k - 1) {
            failure_bullet(test, steps[k - 1].step)
        } else {
            Seq::empty()
        }
    }
}

/// How many of the first `k` rows failed on their latest attempt.
pub open spec fn latest_failing_count(steps: Seq<StepRow>, k: int) -> nat
    decreases k,
{
    if k <= 0 {
        0
    } else {
        latest_failing_count(steps, k - 1) + if latest_failing(steps, k - 1) {
            1nat
        } else {
            0nat
        }
    }
}

pub proof fn lemma_latest_failing_count_bound(steps: Seq<StepRow>, k: int)
    requires
        0 <= k,
    ensures
        latest_failing_count(steps, k) <= k,
    decreases k,
{
    if k > 0 {
        lemma_latest_failing_count_bound(steps, k - 1);
    }
}

pub open spec fn test_failure_bullets() -> spec_fn(TestRow) -> Seq<char> {
    |t: TestRow| latest_failure_bullets(t.test.name@, t.steps@, t.steps@.len() as int)
}

/// Steps that failed on their latest attempt, over all tests.
pub open spec fn latest_failing_in_tests(tests: Seq<TestRow>) -> nat
    decreases tests.len(),
{
    if tests.len() == 0 {
        0
    } else {
        latest_failing_in_tests(tests.drop_last()) + latest_failing_count(
            tests.last().steps@,
            tests.last().steps@.len() as int,
        )
    }
}

/// Number of failing step attempts in a test.
pub open spec fn failing_in_steps(steps: Seq<StepRow>) -> nat
    decreases steps.len(),
{
    if steps.len() == 0 {
        0
    } else {
        failing_in_steps(steps.drop_last()) + if steps.last().step.result == Result::Fail {
            1nat
        } else {
            0nat
        }
    }
}

/// Number of failing step attempts over all tests.
pub open spec fn failing_in_tests(tests: Seq<TestRow>) -> nat
    decreases tests.len(),
{
    if tests.len() == 0 {
        0
    } else {
        failing_in_tests(tests.drop_last()) + failing_in_steps(tests.last().steps@)
    }
}

pub open spec fn pr_head(run: Run, rollup: Option<Result>) -> Seq<char> {
    "## QA: "@ + run.name@ + "  ["@ + rollup_label_or(rollup, "no steps"@) + "]\n"@
}

pub open spec fn pr_description(run: Run) -> Seq<char> {
    if run.description@.len() > 0 {
        "\n_"@ + run.description@ + "_\n"@
    } else {
        Seq::empty()
    }
}

pub open spec fn pr_meta(run: Run) -> Seq<char> {
    let bits = pr_meta_bits(run);
    if bits.len() > 0 {
        "\n"@ + join(bits, " · "@) + "\n"@
    } else {
        Seq::empty()
    }
}

pub open spec fn pr_reviews(reviews: Seq<ReviewRow>) -> Seq<char> {
    if reviews.len() > 0 {
        "\n### Reviews ("@ + dec_nat(reviews.len()) + ")\n\n"@ + concat_map(reviews, review_bullets())
    } else {
        Seq::empty()
    }
}

pub open spec fn pr_findings(notes: Seq<NoteRow>) -> Seq<char> {
    if notes.len() > 0 {
        "\n### Findings ("@ + dec_nat(notes.len()) + ")\n\n"@ + concat_map(notes, finding_bullets())
    } else {
        Seq::empty()
    }
}

/// The failures section: only steps whose latest attempt failed.
pub open spec fn pr_failures(tests: Seq<TestRow>) -> Seq<char> {
    let nfail = latest_failing_in_tests(tests);
    if nfail > 0 {
        "\n### Failures ("@ + dec_nat(nfail) + ")\n\n"@ + concat_map(tests, test_failure_bullets())
    } else {
        Seq::empty()
    }
}

/// The PR summary: a tight one-block markdown summary of a run, leading
/// with the rollup, then metadata, counts, reviews, findings and failures.
pub open spec fn pr_summary(
    run: Run,
    rollup: Option<Result>,
    counts: ResultCounts,
    notes: Seq<NoteRow>,
    tests: Seq<TestRow>,
    reviews: Seq<ReviewRow>,
) -> Seq<char> {
    pr_head(run, rollup) + pr_description(run) + pr_meta(run) + ("\n**Steps**: "@ + counts_text(counts))
        + pr_reviews(reviews) + pr_findings(notes) + pr_failures(tests)
}

fn pr_meta_bits_exec(run: &Run) -> (v: Vec<String>)
    ensures
        v@.map_values(|p: String| p@) == pr_meta_bits(*run),
{
    let mut v: Vec<String> = Vec::new();
    let ghost mut acc: Seq<Seq<char>> = Seq::empty();
    if !run.branch.as_str().is_empty() {
        let mut b = string_from("branch `");
        push_str(&mut b, run.branch.as_str());
        push_str(&mut b, "`");
        v.push(b);
    }
    if !run.commit_sha.as_str().is_empty() {
        let mut b = string_from("commit `");
        push_str(&mut b, run.commit_sha.as_str());
        push_str(&mut b, "`");
        v.push(b);
    }
    match run.pr_number {
        Some(n) => {
            if run.pr_url_is_safe() {
                let mut b = string_from("PR [#");
                push_i64(&mut b, n);
                push_str(&mut b, "](");
                push_str(&mut b, run.pr_url.as_str());
                push_str(&mut b, ")");
                v.push(b);
            } else {
                let mut b = string_from("PR `#");
                push_i64(&mut b, n);
                push_str(&mut b, "`");
                v.push(b);
            }
        },
        None => {},
    }
    if !run.env.as_str().is_empty() {
        let mut b = string_from("env `");
        push_str(&mut b, run.env.as_str());
        push_str(&mut b, "`");
        v.push(b);
    }
    if !run.url.as_str().is_empty() {
        let mut b = string_from("url <");
        push_str(&mut b, run.url.as_str());
        push_str(&mut b, ">");
        v.push(b);
    }
    if !run.workdir.as_str().is_empty() {
        let mut b = string_from("workdir `");
        push_str(&mut b, run.workdir.as_str());
        push_str(&mut b, "`");
        v.push(b);
    }
    assert(v@.map_values(|p: String| p@) =~= pr_meta_bits(*run));
    v
}

fn push_review_bullet(s: &mut String, r: &ReviewRow)
    ensures
        final(s)@ == old(s)@ + review_bullet(*r),
{
    push_str(s, "- ");
    push_str(s, r.review.kind.emoji());
    push_str(s, " **");
    push_str(s, r.review.kind.label());
    push_str(s, " — ");
    push_str(s, r.review.verdict.label());
    push_str(s, "**: ");
    push_flat_trimmed(s, r.review.text.as_str());
    push_str(s, "\n");
}

fn push_review_bullets(s: &mut String, reviews: &[ReviewRow])
    ensures
        final(s)@ == old(s)@ + concat_map(reviews@, review_bullets()),
{
    let ghost start = s@;
    let mut i: usize = 0;
    while i < reviews.len()
        invariant
            i <= reviews@.len(),
            s@ == start + concat_map(reviews@.take(i as int), review_bullets()),
        decreases reviews@.len() - i,
    {
        push_review_bullet(s, &reviews[i]);
        proof {
            lemma_concat_map_step(reviews@, i as int, review_bullets());
        }
        i = i + 1;
    }
    proof {
        lemma_concat_map_all(reviews@, review_bullets());
    }
}

fn push_finding_bullet(s: &mut String, n: &NoteRow)
    ensures
        final(s)@ == old(s)@ + finding_bullet(*n),
{
    push_str(s, "- ");
    push_str(s, n.note.kind.emoji());
    push_str(s, " **");
    push_str(s, n.note.kind.label());
    push_str(s, "**: ");
    push_flat_trimmed(s, n.note.text.as_str());
    push_str(s, "\n");
}

fn push_finding_bullets(s: &mut String, notes: &[NoteRow])
    ensures
        final(s)@ == old(s)@ + concat_map(notes@, finding_bullets()),
{
    let ghost start = s@;
    let mut i: usize = 0;
    while i < notes.len()
        invariant
            i <= notes@.len(),
            s@ == start + concat_map(notes@.take(i as int), finding_bullets()),
        decreases notes@.len() - i,
    {
        push_finding_bullet(s, &notes[i]);
        proof {
            lemma_concat_map_step(notes@, i as int, finding_bullets());
        }
        i = i + 1;
    }
    proof {
        lemma_concat_map_all(notes@, finding_bullets());
    }
}

fn push_failure_bullet(s: &mut String, test: &String, st: &RunStep)
    ensures
        final(s)@ == old(s)@ + failure_bullet(test@, *st),
{
    push_str(s, "- **");
    push_str(s, test.as_str());
    push_str(s, "** / ");
    push_str(s, st.name.as_str());
    if st.attempt > 1 {
        push_str(s, " _(attempt ");
        push_i64(s, st.attempt);
        push_str(s, ")_");
    }
    push_str(s, ": ");
    if st.note.as_str().is_empty() {
        push_str(s, "no note");
    } else {
        push_flat_trimmed(s, st.note.as_str());
    }
    push_str(s, "\n");
}

fn row_steps_exec(steps: &Vec<StepRow>) -> (v: Vec<RunStep>)
    ensures
        v@ == row_steps(steps@),
{
    let mut v: Vec<RunStep> = Vec::new();
    let mut i: usize = 0;
    while i < steps.len()
        invariant
            i <= steps@.len(),
            v@.len() == i,
            forall|k: int| 0 <= k < i ==> #[trigger] v@[k] == steps@[k].step,
        decreases steps@.len() - i,
    {
        v.push(steps[i].step.copied());
        i = i + 1;
    }
    assert(v@ =~= row_steps(steps@));
    v
}

fn push_step_failures(s: &mut String, test: &String, steps: &Vec<StepRow>) -> (n: usize)
    requires
        steps@.len() < usize::MAX,
    ensures
        final(s)@ == old(s)@ + latest_failure_bullets(test@, steps@, steps@.len() as int),
        n == latest_failing_count(steps@, steps@.len() as int),
{
    let ghost start = s@;
    let plain = row_steps_exec(steps);
    let mut i: usize = 0;
    let mut n: usize = 0;
    while i < steps.len()
        invariant
            i <= steps@.len(),
            steps@.len() < usize::MAX,
            plain@ == row_steps(steps@),
            n <= i,
            n == latest_failing_count(steps@, i as int),
            s@ == start + latest_failure_bullets(test@, steps@, i as int),
        decreases steps@.len() - i,
    {
        let st = &steps[i].step;
        if st.result == Result::Fail && step_is_latest(plain.as_slice(), i) {
            push_failure_bullet(s, test, st);
            n = n + 1;
        }
        i = i + 1;
    }
    n
}

/// The failure bullets over all tests, and their number.
fn failures_text(tests: &[TestRow]) -> (r: (String, usize))
    requires
        latest_failing_in_tests(tests@) < usize::MAX,
        forall|k: int| 0 <= k < tests@.len() ==> #[trigger] tests@[k].steps@.len() < usize::MAX,
    ensures
        r.0@ == concat_map(tests@, test_failure_bullets()),
        r.1 == latest_failing_in_tests(tests@),
{
    let mut s = String::new();
    let mut total: usize = 0;
    let mut i: usize = 0;
    while i < tests.len()
        invariant
            i <= tests@.len(),
            latest_failing_in_tests(tests@) < usize::MAX,
            forall|k: int| 0 <= k < tests@.len() ==> #[trigger] tests@[k].steps@.len() < usize::MAX,
            total == latest_failing_in_tests(tests@.take(i as int)),
            s@ == concat_map(tests@.take(i as int), test_failure_bullets()),
        decreases tests@.len() - i,
    {
        let t = &tests[i];
        let n = push_step_failures(&mut s, &t.test.name, &t.steps);
        proof {
            assert(tests@.take(i + 1).drop_last() =~= tests@.take(i as int));
            lemma_latest_failing_prefix(tests@, i as int + 1);
            lemma_concat_map_step(tests@, i as int, test_failure_bullets());
        }
        total = total + n;
        i = i + 1;
    }
    proof {
        lemma_concat_map_all(tests@, test_failure_bullets());
        assert(tests@.take(i as int) =~= tests@);
    }
    (s, total)
}

proof fn lemma_latest_failing_prefix(tests: Seq<TestRow>, i: int)
    requires
        0 <= i <= tests.len(),
    ensures
        latest_failing_in_tests(tests.take(i)) <= latest_failing_in_tests(tests),
    decreases tests.len() - i,
{
    if i < tests.len() {
        lemma_latest_failing_prefix(tests, i + 1);
        assert(tests.take(i + 1).drop_last() =~= tests.take(i));
    } else {
        assert(tests.take(i) =~= tests);
    }
}

fn pr_head_exec(run: &Run, rollup: Option<Result>) -> (s: String)
    ensures
        s@ == pr_head(*run, rollup),
{
    let mut s = string_from("## QA: ");
    push_str(&mut s, run.name.as_str());
    push_str(&mut s, "  [");
    match rollup {
        Some(r) => push_str(&mut s, r.label()),
        None => push_str(&mut s, "no steps"),
    }
    push_str(&mut s, "]\n");
    s
}

fn pr_description_exec(run: &Run) -> (s: String)
    ensures
        s@ == pr_description(*run),
{
    let mut s = String::new();
    if !run.description.as_str().is_empty() {
        push_str(&mut s, "\n_");
        push_str(&mut s, run.description.as_str());
        push_str(&mut s, "_\n");
    }
    s
}

fn pr_meta_exec(run: &Run) -> (s: String)
    ensures
        s@ == pr_meta(*run),
{
    let mut s = String::new();
    let bits = pr_meta_bits_exec(run);
    if bits.len() > 0 {
        push_str(&mut s, "\n");
        let j = join_strings(&bits, " · ");
        push_str(&mut s, j.as_str());
        push_str(&mut s, "\n");
    }
    s
}

fn pr_reviews_exec(reviews: &[ReviewRow]) -> (s: String)
    ensures
        s@ == pr_reviews(reviews@),
{
    let mut s = String::new();
    if reviews.len() > 0 {
        push_str(&mut s, "\n### Reviews (");
        push_usize(&mut s, reviews.len());
        push_str(&mut s, ")\n\n");
        push_review_bullets(&mut s, reviews);
    }
    s
}

fn pr_findings_exec(notes: &[NoteRow]) -> (s: String)
    ensures
        s@ == pr_findings(notes@),
{
    let mut s = String::new();
    if notes.len() > 0 {
        push_str(&mut s, "\n### Findings (");
        push_usize(&mut s, notes.len());
        push_str(&mut s, ")\n\n");
        push_finding_bullets(&mut s, notes);
    }
    s
}

fn pr_failures_exec(tests: &[TestRow]) -> (s: String)
    requires
        latest_failing_in_tests(tests@) < usize::MAX,
        forall|k: int| 0 <= k < tests@.len() ==> #[trigger] tests@[k].steps@.len() < usize::MAX,
    ensures
        s@ == pr_failures(tests@),
{
    let mut s = String::new();
    let (fails, nfail) = failures_text(tests);
    if nfail > 0 {
        push_str(&mut s, "\n### Failures (");
        push_usize(&mut s, nfail);
        push_str(&mut s, ")\n\n");
        push_str(&mut s, fails.as_str());
    }
    s
}

/// A tight one-block summary suitable for pasting into a PR description or
/// review comment. Shorter and flatter than the full export — leads with the
/// rollup, surfaces findings (sorted by kind), then the steps whose latest
/// attempt failed.
pub fn render_pr_summary(
    run: &Run,
    rollup: Option<Result>,
    counts: &ResultCounts,
    notes: &[NoteRow],
    tests: &[TestRow],
    reviews: &[ReviewRow],
) -> (s: String)
    requires
        latest_failing_in_tests(tests@) < usize::MAX,
        forall|k: int| 0 <= k < tests@.len() ==> #[trigger] tests@[k].steps@.len() < usize::MAX,
    ensures
        s@ == pr_summary(*run, rollup, *counts, notes@, tests@, reviews@),
{
    let mut s = pr_head_exec(run, rollup);
    let d = pr_description_exec(run);
    push_str(&mut s, d.as_str());
    let m = pr_meta_exec(run);
    push_str(&mut s, m.as_str());
    let mut c = string_from("\n**Steps**: ");
    push_counts(&mut c, counts);
    push_str(&mut s, c.as_str());
    let r = pr_reviews_exec(reviews);
    push_str(&mut s, r.as_str());
    let f = pr_findings_exec(notes);
    push_str(&mut s, f.as_str());
    let x = pr_failures_exec(tests);
    push_str(&mut s, x.as_str());
    s
}

// ---------------------------------------------------------------------------
// Markdown export
// ---------------------------------------------------------------------------

pub open spec fn export_head(run: Run) -> Seq<char> {
    "# Run: "@ + run.name@ + "\n\n"@ + if run.description@.len() > 0 {
        "> "@ + run.description@ + "\n\n"@
    } else {
        Seq::empty()
    }
}

/// `- **{key}**: `{value}`` when the value is not empty.
pub open spec fn export_meta_line(key: Seq<char>, value: Seq<char>) -> Seq<Seq<char>> {
    if value.len() > 0 {
        seq!["- **"@ + key + "**: `"@ + value + "`"@]
    } else {
        Seq::empty()
    }
}

pub open spec fn pr_number_text(n: Option<i64>) -> Seq<char> {
    match n {
        Some(x) => "#"@ + dec_int(x as int),
        None => Seq::empty(),
    }
}

pub open spec fn export_meta_lines(run: Run) -> Seq<Seq<char>> {
    export_meta_line("Branch"@, run.branch@) + export_meta_line("Commit"@, run.commit_sha@)
        + export_meta_line("PR"@, pr_number_text(run.pr_number)) + export_meta_line(
        "Env"@,
        run.env@,
    ) + export_meta_line("URL"@, run.url@) + export_meta_line("Workdir"@, run.workdir@)
}

pub open spec fn export_meta(run: Run) -> Seq<char> {
    let lines = export_meta_lines(run);
    if lines.len() > 0 {
        join(lines, "\n"@) + "\n\n"@
    } else {
        Seq::empty()
    }
}

pub open spec fn export_review(r: ReviewRow) -> Seq<char> {
    "### "@ + review_kind_emoji(r.review.kind) + " "@ + review_kind_label(r.review.kind) + " — "@
        + review_verdict_label(r.review.verdict) + "\n\n"@ + r.review.text@ + "\n\n"@
}

pub open spec fn export_reviews_each() -> spec_fn(ReviewRow) -> Seq<char> {
    |r: ReviewRow| export_review(r)
}

pub open spec fn export_reviews(reviews: Seq<ReviewRow>) -> Seq<char> {
    if reviews.len() > 0 {
        "## Reviews ("@ + dec_nat(reviews.len()) + ")\n\n"@ + concat_map(reviews, export_reviews_each())
    } else {
        Seq::empty()
    }
}

pub open spec fn export_times(run: Run) -> Seq<char> {
    "- **Started**: "@ + run.started_at@ + "\n"@ + match run.completed_at {
        Some(c) => "- **Completed**: "@ + c@ + "\n"@,
        None => "- **Status**: in progress\n"@,
    }
}

pub open spec fn export_rollup(r: Option<Result>) -> Seq<char> {
    match r {
        Some(x) => "- **Rollup**: "@ + result_label(x) + "\n"@,
        None => Seq::empty(),
    }
}

pub open spec fn export_findings_line(findings: i64) -> Seq<char> {
    if findings > 0 {
        "- **Findings**: 📋 "@ + dec_int(findings as int) + " observation"@ + (if findings == 1 {
            ""@
        } else {
            "s"@
        }) + " filed outside the test brief — review them.\n"@
    } else {
        Seq::empty()
    }
}

pub open spec fn export_status(b: RunBody) -> Seq<char> {
    export_times(b.run) + export_rollup(b.rollup) + ("- **Counts**: "@ + counts_text(b.counts))
        + export_findings_line(b.findings) + "\n"@
}

pub open spec fn scope_words(s: Scope) -> Seq<char> {
    match s {
        Scope::In => "in scope"@,
        Scope::Out => "out of scope"@,
    }
}

pub open spec fn export_note(n: NoteRow) -> Seq<char> {
    "- _("@ + scope_words(n.note.scope) + ")_ "@ + replace_newlines(n.note.text@, "\n    "@) + "\n"@
}

pub open spec fn export_notes_each() -> spec_fn(NoteRow) -> Seq<char> {
    |n: NoteRow| export_note(n)
}

pub open spec fn export_notes(notes: Seq<NoteRow>) -> Seq<char> {
    if notes.len() > 0 {
        "## Findings & notes ("@ + dec_nat(notes.len()) + ")\n\n"@ + concat_map(notes, export_notes_each())
            + "\n"@
    } else {
        Seq::empty()
    }
}

pub open spec fn export_failure(test: Seq<char>, step: RunStep) -> Seq<char> {
    "- **"@ + test + "** → _"@ + step.name@ + "_ (attempt "@ + dec_int(step.attempt as int) + "): "@
        + (if step.note@.len() == 0 {
        "no note"@
    } else {
        one_line(step.note@)
    }) + "\n"@
}

pub open spec fn export_step_failures(test: Seq<char>) -> spec_fn(StepRow) -> Seq<char> {
    |sr: StepRow|
        if sr.step.result == Result::Fail {
            export_failure(test, sr.step)
        } else {
            Seq::empty()
        }
}

pub open spec fn export_test_failures() -> spec_fn(TestRow) -> Seq<char> {
    |t: TestRow| concat_map(t.steps@, export_step_failures(t.test.name@))
}

pub open spec fn export_failures(tests: Seq<TestRow>) -> Seq<char> {
    if failing_in_tests(tests) > 0 {
        "## Failures\n\n"@ + concat_map(tests, export_test_failures()) + "\n"@
    } else {
        Seq::empty()
    }
}

/// The mark shown for a rollup or a result.
pub open spec fn result_icon(r: Result) -> Seq<char> {
    match r {
        Result::Pass => "✓"@,
        Result::Fail => "✗"@,
        Result::Warning => "⚠"@,
        Result::Skipped => "⊘"@,
    }
}

pub open spec fn rollup_icon(r: Option<Result>) -> Seq<char> {
    match r {
        Some(x) => result_icon(x),
        None => "·"@,
    }
}

pub open spec fn quoted_line() -> spec_fn(Seq<char>) -> Seq<char> {
    |l: Seq<char>| "    > "@ + l + "\n"@
}

pub open spec fn export_step(sr: StepRow) -> Seq<char> {
    let attempt = if sr.step.attempt > 1 {
        " _(try #"@ + dec_int(sr.step.attempt as int) + "_)"@
    } else {
        Seq::empty()
    };
    let note = if sr.step.note@.len() > 0 {
        concat_map(lines(sr.step.note@), quoted_line())
    } else {
        Seq::empty()
    };
    "- "@ + result_icon(sr.step.result) + " "@ + sr.step.name@ + attempt + "\n"@ + note
}

pub open spec fn export_steps_each() -> spec_fn(StepRow) -> Seq<char> {
    |sr: StepRow| export_step(sr)
}

pub open spec fn export_test(t: TestRow) -> Seq<char> {
    "### "@ + rollup_icon(t.rollup) + " "@ + t.test.name@ + "\n\n"@ + concat_map(t.steps@, export_steps_each())
        + "\n"@
}

pub open spec fn export_tests_each() -> spec_fn(TestRow) -> Seq<char> {
    |t: TestRow| export_test(t)
}

/// The markdown export of a run: title, metadata, reviews, status, findings,
/// failures, then every test with its steps.
pub open spec fn markdown_export(b: RunBody) -> Seq<char> {
    export_head(b.run) + export_meta(b.run) + export_reviews(b.reviews@) + export_status(b)
        + export_notes(b.notes@) + export_failures(b.tests@) + ("## Tests\n\n"@ + concat_map(
        b.tests@,
        export_tests_each(),
    ))
}

/// The failing step attempts of one test's rows, in order, each with the
/// test's name.
pub open spec fn failing_attempts_in_steps(test: Seq<char>, steps: Seq<StepRow>) -> Seq<(Seq<char>, RunStep)>
    decreases steps.len(),
{
    if steps.len() == 0 {
        Seq::empty()
    } else {
        failing_attempts_in_steps(test, steps.drop_last()) + if steps.last().step.result
            == Result::Fail {
            seq![(test, steps.last().step)]
        } else {
            Seq::empty()
        }
    }
}

/// The failing step attempts of all tests, in order.
pub open spec fn failing_attempts(tests: Seq<TestRow>) -> Seq<(Seq<char>, RunStep)>
    decreases tests.len(),
{
    if tests.len() == 0 {
        Seq::empty()
    } else {
        failing_attempts(tests.drop_last()) + failing_attempts_in_steps(
            tests.last().test.name@,
            tests.last().steps@,
        )
    }
}

pub open spec fn export_failure_of() -> spec_fn((Seq<char>, RunStep)) -> Seq<char> {
    |p: (Seq<char>, RunStep)| export_failure(p.0, p.1)
}

proof fn lemma_concat_map_append<A>(a: Seq<A>, b: Seq<A>, f: spec_fn(A) -> Seq<char>)
    ensures
        concat_map(a + b, f) == concat_map(a, f) + concat_map(b, f),
    decreases b.len(),
{
    if b.len() == 0 {
        assert(a + b =~= a);
        assert(concat_map(a, f) + concat_map(b, f) =~= concat_map(a, f));
    } else {
        assert((a + b).drop_last() =~= a + b.drop_last());
        assert((a + b).last() == b.last());
        lemma_concat_map_append(a, b.drop_last(), f);
        assert(concat_map(a, f) + concat_map(b, f) =~= concat_map(a, f) + concat_map(b.drop_last(), f)
            + f(b.last()));
    }
}

proof fn lemma_step_failures_listed(test: Seq<char>, steps: Seq<StepRow>)
    ensures
        concat_map(steps, export_step_failures(test)) == concat_map(
            failing_attempts_in_steps(test, steps),
            export_failure_of(),
        ),
        failing_attempts_in_steps(test, steps).len() == failing_in_steps(steps),
        forall|i: int|
            0 <= i < failing_attempts_in_steps(test, steps).len() ==> (#[trigger] failing_attempts_in_steps(
                test,
                steps,
            )[i]).1.result == Result::Fail,
    decreases steps.len(),
{
    if steps.len() > 0 {
        let h = failing_attempts_in_steps(test, steps.drop_last());
        lemma_step_failures_listed(test, steps.drop_last());
        let last = steps.last();
        if last.step.result == Result::Fail {
            let one = seq![(test, last.step)];
            lemma_concat_map_append(h, one, export_failure_of());
            assert(one.drop_last() =~= Seq::<(Seq<char>, RunStep)>::empty());
            assert(one.last() == (test, last.step));
            assert(concat_map(one.drop_last(), export_failure_of()) =~= Seq::<char>::empty());
            assert((export_failure_of())((test, last.step)) == export_failure(test, last.step));
            assert(concat_map(one, export_failure_of()) =~= export_failure(test, last.step));
            let all = failing_attempts_in_steps(test, steps);
            assert forall|i: int| 0 <= i < all.len() implies (#[trigger] all[i]).1.result == Result::Fail by {
                if i < h.len() {
                    assert(all[i] == h[i]);
                }
            }
        } else {
            assert(failing_attempts_in_steps(test, steps) =~= h);
        }
    }
}

proof fn lemma_test_failures_listed(tests: Seq<TestRow>)
    ensures
        concat_map(tests, export_test_failures()) == concat_map(failing_attempts(tests), export_failure_of()),
        failing_attempts(tests).len() == failing_in_tests(tests),
        forall|i: int|
            0 <= i < failing_attempts(tests).len() ==> (#[trigger] failing_attempts(tests)[i]).1.result
                == Result::Fail,
    decreases tests.len(),
{
    if tests.len() > 0 {
        let t = tests.last();
        let h = failing_attempts(tests.drop_last());
        let g = failing_attempts_in_steps(t.test.name@, t.steps@);
        lemma_test_failures_listed(tests.drop_last());
        lemma_step_failures_listed(t.test.name@, t.steps@);
        lemma_concat_map_append(h, g, export_failure_of());
        let all = failing_attempts(tests);
        assert forall|i: int| 0 <= i < all.len() implies (#[trigger] all[i]).1.result == Result::Fail by {
            if i < h.len() {
                assert(all[i] == h[i]);
            } else {
                assert(all[i] == g[i - h.len()]);
            }
        }
    }
}

/// The `## Failures` section of the export: present exactly when some step
/// attempt failed, with one bullet per failing attempt in report order.
pub open spec fn failures_section(tests: Seq<TestRow>) -> Seq<char> {
    if failing_attempts(tests).len() > 0 {
        "## Failures\n\n"@ + concat_map(failing_attempts(tests), export_failure_of()) + "\n"@
    } else {
        Seq::empty()
    }
}

proof fn lemma_export_opens_with_title(b: RunBody)
    ensures
        ("# Run: "@ + b.run.name@ + "\n\n"@).is_prefix_of(markdown_export(b)),
{
    let lead = "# Run: "@ + b.run.name@ + "\n\n"@;
    let h = export_head(b.run);
    let m = markdown_export(b);
    let rest = export_meta(b.run) + export_reviews(b.reviews@) + export_status(b) + export_notes(
        b.notes@,
    ) + export_failures(b.tests@) + ("## Tests\n\n"@ + concat_map(b.tests@, export_tests_each()));
    assert(m =~= h + rest);
    assert forall|i: int| 0 <= i < lead.len() implies lead[i] == m[i] by {
        assert(h[i] == lead[i]);
    }
}

/// The layout of the markdown export: it opens with `# Run: <name>`, then
/// metadata, reviews, the status lines (`- **Status**: in progress` exactly
/// when the run has no completion time, in `export_times`), findings; then
/// a `## Failures` section exactly when some step attempt failed, holding one
/// bullet per failing attempt in report order; then the `## Tests` section.
pub proof fn lemma_export_layout(b: RunBody)
    ensures
        ("# Run: "@ + b.run.name@ + "\n\n"@).is_prefix_of(markdown_export(b)),
        markdown_export(b) == export_head(b.run) + export_meta(b.run) + export_reviews(b.reviews@)
            + export_status(b) + export_notes(b.notes@) + failures_section(b.tests@) + (
        "## Tests\n\n"@ + concat_map(b.tests@, export_tests_each())),
        failing_attempts(b.tests@).len() == failing_in_tests(b.tests@),
        forall|i: int|
            0 <= i < failing_attempts(b.tests@).len() ==> (#[trigger] failing_attempts(b.tests@)[i]).1.result
                == Result::Fail,
{
    lemma_test_failures_listed(b.tests@);
    lemma_export_opens_with_title(b);
    assert(export_failures(b.tests@) == failures_section(b.tests@));
}

fn export_head_exec(run: &Run) -> (s: String)
    ensures
        s@ == export_head(*run),
{
    let mut s = string_from("# Run: ");
    push_str(&mut s, run.name.as_str());
    push_str(&mut s, "\n\n");
    if !run.description.as_str().is_empty() {
        push_str(&mut s, "> ");
        push_str(&mut s, run.description.as_str());
        push_str(&mut s, "\n\n");
    }
    s
}

fn push_meta_line(v: &mut Vec<String>, key: &str, value: &str)
    ensures
        final(v)@.map_values(|p: String| p@) == old(v)@.map_values(|p: String| p@) + export_meta_line(key@, value@),
{
    let ghost before = v@.map_values(|p: String| p@);
    if !value.is_empty() {
        let mut l = string_from("- **");
        push_str(&mut l, key);
        push_str(&mut l, "**: `");
        push_str(&mut l, value);
        push_str(&mut l, "`");
        v.push(l);
    }
    assert(v@.map_values(|p: String| p@) =~= before + export_meta_line(key@, value@));
}

fn export_meta_exec(run: &Run) -> (s: String)
    ensures
        s@ == export_meta(*run),
{
    let mut pr = String::new();
    match run.pr_number {
        Some(n) => {
            push_str(&mut pr, "#");
            push_i64(&mut pr, n);
        },
        None => {},
    }
    let mut v: Vec<String> = Vec::new();
    assert(v@.map_values(|p: String| p@) =~= Seq::<Seq<char>>::empty());
    push_meta_line(&mut v, "Branch", run.branch.as_str());
    push_meta_line(&mut v, "Commit", run.commit_sha.as_str());
    push_meta_line(&mut v, "PR", pr.as_str());
    push_meta_line(&mut v, "Env", run.env.as_str());
    push_meta_line(&mut v, "URL", run.url.as_str());
    push_meta_line(&mut v, "Workdir", run.workdir.as_str());
    assert(v@.map_values(|p: String| p@) =~= export_meta_lines(*run));
    let mut s = String::new();
    if v.len() > 0 {
        let j = join_strings(&v, "\n");
        push_str(&mut s, j.as_str());
        push_str(&mut s, "\n\n");
    }
    s
}

fn push_export_review(s: &mut String, r: &ReviewRow)
    ensures
        final(s)@ == old(s)@ + export_review(*r),
{
    push_str(s, "### ");
    push_str(s, r.review.kind.emoji());
    push_str(s, " ");
    push_str(s, r.review.kind.label());
    push_str(s, " — ");
    push_str(s, r.review.verdict.label());
    push_str(s, "\n\n");
    push_str(s, r.review.text.as_str());
    push_str(s, "\n\n");
}

fn export_reviews_exec(reviews: &[ReviewRow]) -> (s: String)
    ensures
        s@ == export_reviews(reviews@),
{
    let mut s = String::new();
    if reviews.len() == 0 {
        return s;
    }
    push_str(&mut s, "## Reviews (");
    push_usize(&mut s, reviews.len());
    push_str(&mut s, ")\n\n");
    let ghost start = s@;
    let mut i: usize = 0;
    while i < reviews.len()
        invariant
            i <= reviews@.len(),
            s@ == start + concat_map(reviews@.take(i as int), export_reviews_each()),
        decreases reviews@.len() - i,
    {
        push_export_review(&mut s, &reviews[i]);
        proof {
            lemma_concat_map_step(reviews@, i as int, export_reviews_each());
        }
        i = i + 1;
    }
    proof {
        lemma_concat_map_all(reviews@, export_reviews_each());
    }
    s
}

fn export_times_exec(run: &Run) -> (s: String)
    ensures
        s@ == export_times(*run),
{
    let mut s = string_from("- **Started**: ");
    push_str(&mut s, run.started_at.as_str());
    push_str(&mut s, "\n");
    match &run.completed_at {
        Some(c) => {
            push_str(&mut s, "- **Completed**: ");
            push_str(&mut s, c.as_str());
            push_str(&mut s, "\n");
        },
        None => {
            push_str(&mut s, "- **Status**: in progress\n");
        },
    }
    s
}

fn export_rollup_exec(r: Option<Result>) -> (s: String)
    ensures
        s@ == export_rollup(r),
{
    let mut s = String::new();
    match r {
        Some(x) => {
            push_str(&mut s, "- **Rollup**: ");
            push_str(&mut s, x.label());
            push_str(&mut s, "\n");
        },
        None => {},
    }
    s
}

fn export_findings_exec(findings: i64) -> (s: String)
    ensures
        s@ == export_findings_line(findings),
{
    let mut s = String::new();
    if findings > 0 {
        push_str(&mut s, "- **Findings**: 📋 ");
        push_i64(&mut s, findings);
        push_str(&mut s, " observation");
        if findings == 1 {
            push_str(&mut s, "");
        } else {
            push_str(&mut s, "s");
        }
        push_str(&mut s, " filed outside the test brief — review them.\n");
    }
    s
}

fn export_status_exec(b: &RunBody) -> (s: String)
    ensures
        s@ == export_status(*b),
{
    let mut s = export_times_exec(&b.run);
    let r = export_rollup_exec(b.rollup);
    push_str(&mut s, r.as_str());
    let mut c = string_from("- **Counts**: ");
    push_counts(&mut c, &b.counts);
    push_str(&mut s, c.as_str());
    let f = export_findings_exec(b.findings);
    push_str(&mut s, f.as_str());
    push_str(&mut s, "\n");
    s
}

fn push_export_note(s: &mut String, n: &NoteRow)
    ensures
        final(s)@ == old(s)@ + export_note(*n),
{
    push_str(s, "- _(");
    match n.note.scope {
        Scope::In => push_str(s, "in scope"),
        Scope::Out => push_str(s, "out of scope"),
    }
    push_str(s, ")_ ");
    push_replacing_newlines(s, n.note.text.as_str(), "\n    ");
    push_str(s, "\n");
}

fn export_notes_exec(notes: &[NoteRow]) -> (s: String)
    ensures
        s@ == export_notes(notes@),
{
    let mut s = String::new();
    if notes.len() == 0 {
        return s;
    }
    push_str(&mut s, "## Findings & notes (");
    push_usize(&mut s, notes.len());
    push_str(&mut s, ")\n\n");
    let ghost start = s@;
    let mut i: usize = 0;
    while i < notes.len()
        invariant
            i <= notes@.len(),
            s@ == start + concat_map(notes@.take(i as int), export_notes_each()),
        decreases notes@.len() - i,
    {
        let n = &notes[i];
        push_export_note(&mut s, n);
        proof {
            lemma_concat_map_step(notes@, i as int, export_notes_each());
        }
        i = i + 1;
    }
    proof {
        lemma_concat_map_all(notes@, export_notes_each());
    }
    push_str(&mut s, "\n");
    s
}

fn push_export_failure(s: &mut String, test: &String, st: &RunStep)
    ensures
        final(s)@ == old(s)@ + export_failure(test@, *st),
{
    push_str(s, "- **");
    push_str(s, test.as_str());
    push_str(s, "** → _");
    push_str(s, st.name.as_str());
    push_str(s, "_ (attempt ");
    push_i64(s, st.attempt);
    push_str(s, "): ");
    if st.note.as_str().is_empty() {
        push_str(s, "no note");
    } else {
        let f = flatten_newlines(st.note.as_str());
        push_str(s, f.as_str());
    }
    push_str(s, "\n");
}

fn push_export_step_failures(s: &mut String, test: &String, steps: &Vec<StepRow>)
    ensures
        final(s)@ == old(s)@ + concat_map(steps@, export_step_failures(test@)),
{
    let ghost start = s@;
    let mut i: usize = 0;
    while i < steps.len()
        invariant
            i <= steps@.len(),
            s@ == start + concat_map(steps@.take(i as int), export_step_failures(test@)),
        decreases steps@.len() - i,
    {
        let st = &steps[i].step;
        if st.result == Result::Fail {
            push_export_failure(s, test, st);
        }
        proof {
            lemma_concat_map_step(steps@, i as int, export_step_failures(test@));
        }
        i = i + 1;
    }
    proof {
        lemma_concat_map_all(steps@, export_step_failures(test@));
    }
}

fn failing_count_in_steps(steps: &Vec<StepRow>) -> (n: usize)
    requires
        steps@.len() < usize::MAX,
    ensures
        n == failing_in_steps(steps@),
{
    let mut i: usize = 0;
    let mut n: usize = 0;
    while i < steps.len()
        invariant
            i <= steps@.len(),
            steps@.len() < usize::MAX,
            n <= i,
            n == failing_in_steps(steps@.take(i as int)),
        decreases steps@.len() - i,
    {
        assert(steps@.take(i + 1).drop_last() =~= steps@.take(i as int));
        if steps[i].step.result == Result::Fail {
            n = n + 1;
        }
        i = i + 1;
    }
    assert(steps@.take(i as int) =~= steps@);
    n
}

/// The number of failing step attempts over all tests.
fn failing_count(tests: &[TestRow]) -> (n: usize)
    requires
        failing_in_tests(tests@) < usize::MAX,
        forall|k: int| 0 <= k < tests@.len() ==> #[trigger] tests@[k].steps@.len() < usize::MAX,
    ensures
        n == failing_in_tests(tests@),
{
    let mut total: usize = 0;
    let mut i: usize = 0;
    while i < tests.len()
        invariant
            i <= tests@.len(),
            failing_in_tests(tests@) < usize::MAX,
            forall|k: int| 0 <= k < tests@.len() ==> #[trigger] tests@[k].steps@.len() < usize::MAX,
            total == failing_in_tests(tests@.take(i as int)),
        decreases tests@.len() - i,
    {
        let n = failing_count_in_steps(&tests[i].steps);
        proof {
            assert(tests@.take(i + 1).drop_last() =~= tests@.take(i as int));
            lemma_failing_prefix(tests@, i as int + 1);
        }
        total = total + n;
        i = i + 1;
    }
    assert(tests@.take(i as int) =~= tests@);
    total
}

proof fn lemma_failing_prefix(tests: Seq<TestRow>, i: int)
    requires
        0 <= i <= tests.len(),
    ensures
        failing_in_tests(tests.take(i)) <= failing_in_tests(tests),
    decreases tests.len() - i,
{
    if i < tests.len() {
        lemma_failing_prefix(tests, i + 1);
        assert(tests.take(i + 1).drop_last() =~= tests.take(i));
    } else {
        assert(tests.take(i) =~= tests);
    }
}

fn export_failures_exec(tests: &[TestRow]) -> (s: String)
    requires
        failing_in_tests(tests@) < usize::MAX,
        forall|k: int| 0 <= k < tests@.len() ==> #[trigger] tests@[k].steps@.len() < usize::MAX,
    ensures
        s@ == export_failures(tests@),
{
    let nfail = failing_count(tests);
    let mut s = String::new();
    if nfail == 0 {
        return s;
    }
    push_str(&mut s, "## Failures\n\n");
    let ghost start = s@;
    let mut i: usize = 0;
    while i < tests.len()
        invariant
            i <= tests@.len(),
            s@ == start + concat_map(tests@.take(i as int), export_test_failures()),
        decreases tests@.len() - i,
    {
        let t = &tests[i];
        push_export_step_failures(&mut s, &t.test.name, &t.steps);
        proof {
            lemma_concat_map_step(tests@, i as int, export_test_failures());
        }
        i = i + 1;
    }
    proof {
        lemma_concat_map_all(tests@, export_test_failures());
    }
    push_str(&mut s, "\n");
    s
}

fn push_quoted_lines(s: &mut String, note: &str)
    ensures
        final(s)@ == old(s)@ + concat_map(lines(note@), quoted_line()),
{
    let ls = split_lines(note);
    let ghost start = s@;
    let ghost views = lines(note@);
    let mut i: usize = 0;
    while i < ls.len()
        invariant
            i <= ls@.len(),
            ls@.len() == views.len(),
            views == lines(note@),
            forall|k: int| 0 <= k < ls@.len() ==> #[trigger] ls@[k]@ == views[k],
            s@ == start + concat_map(views.take(i as int), quoted_line()),
        decreases ls@.len() - i,
    {
        push_str(s, "    > ");
        push_str(s, ls[i].as_str());
        push_str(s, "\n");
        proof {
            assert(ls@[i as int]@ == views[i as int]);
            lemma_concat_map_step(views, i as int, quoted_line());
        }
        i = i + 1;
    }
    proof {
        lemma_concat_map_all(views, quoted_line());
    }
}

fn push_export_step(s: &mut String, sr: &StepRow)
    ensures
        final(s)@ == old(s)@ + export_step(*sr),
{
    push_str(s, "- ");
    match sr.step.result {
        Result::Pass => push_str(s, "✓"),
        Result::Fail => push_str(s, "✗"),
        Result::Warning => push_str(s, "⚠"),
        Result::Skipped => push_str(s, "⊘"),
    }
    push_str(s, " ");
    push_str(s, sr.step.name.as_str());
    if sr.step.attempt > 1 {
        push_str(s, " _(try #");
        push_i64(s, sr.step.attempt);
        push_str(s, "_)");
    }
    push_str(s, "\n");
    if !sr.step.note.as_str().is_empty() {
        push_quoted_lines(s, sr.step.note.as_str());
    }
}

fn push_export_test(s: &mut String, t: &TestRow)
    ensures
        final(s)@ == old(s)@ + export_test(*t),
{
    push_str(s, "### ");
    match t.rollup {
        Some(Result::Pass) => push_str(s, "✓"),
        Some(Result::Fail) => push_str(s, "✗"),
        Some(Result::Warning) => push_str(s, "⚠"),
        Some(Result::Skipped) => push_str(s, "⊘"),
        None => push_str(s, "·"),
    }
    push_str(s, " ");
    push_str(s, t.test.name.as_str());
    push_str(s, "\n\n");
    let ghost start = s@;
    let mut i: usize = 0;
    while i < t.steps.len()
        invariant
            i <= t.steps@.len(),
            s@ == start + concat_map(t.steps@.take(i as int), export_steps_each()),
        decreases t.steps@.len() - i,
    {
        push_export_step(s, &t.steps[i]);
        proof {
            lemma_concat_map_step(t.steps@, i as int, export_steps_each());
        }
        i = i + 1;
    }
    proof {
        lemma_concat_map_all(t.steps@, export_steps_each());
    }
    push_str(s, "\n");
}

fn export_tests_exec(tests: &[TestRow]) -> (s: String)
    ensures
        s@ == "## Tests\n\n"@ + concat_map(tests@, export_tests_each()),
{
    let mut s = string_from("## Tests\n\n");
    let ghost start = s@;
    let mut i: usize = 0;
    while i < tests.len()
        invariant
            i <= tests@.len(),
            s@ == start + concat_map(tests@.take(i as int), export_tests_each()),
        decreases tests@.len() - i,
    {
        push_export_test(&mut s, &tests[i]);
        proof {
            lemma_concat_map_step(tests@, i as int, export_tests_each());
        }
        i = i + 1;
    }
    proof {
        lemma_concat_map_all(tests@, export_tests_each());
    }
    s
}

/// The full markdown export of a run, for download.
pub fn render_markdown_export(b: &RunBody) -> (s: String)
    requires
        failing_in_tests(b.tests@) < usize::MAX,
        forall|k: int| 0 <= k < b.tests@.len() ==> #[trigger] b.tests@[k].steps@.len() < usize::MAX,
    ensures
        s@ == markdown_export(*b),
{
    let mut s = export_head_exec(&b.run);
    let m = export_meta_exec(&b.run);
    push_str(&mut s, m.as_str());
    let r = export_reviews_exec(b.reviews.as_slice());
    push_str(&mut s, r.as_str());
    let st = export_status_exec(b);
    push_str(&mut s, st.as_str());
    let n = export_notes_exec(b.notes.as_slice());
    push_str(&mut s, n.as_str());
    let f = export_failures_exec(b.tests.as_slice());
    push_str(&mut s, f.as_str());
    let t = export_tests_exec(b.tests.as_slice());
    push_str(&mut s, t.as_str());
    s
}

} // verus!
