//! The records of a testing session (runs, tests, steps, notes, feedback,
//! reviews, attachments), their enumerations, and the rollup verdict.
use vstd::prelude::*;

use crate::text::{ascii_lower, push_str, str_eq, string_from, to_ascii_lowercase};

verus! {

/// A value given on the command line or read back from storage that names
/// none of an enumeration's variants.
#[derive(Debug, Clone)]
pub struct InvalidValue {
    pub message: String,
}

impl InvalidValue {
    /// The message, as the error's text.
    pub fn to_string(&self) -> (r: String)
        ensures
            r@ == self.message@,
    {
        self.message.clone()
    }
}

/// `prefix + quoted + suffix`, the shape of every parse error message.
pub open spec fn invalid_message(prefix: Seq<char>, value: Seq<char>, suffix: Seq<char>) -> Seq<char> {
    prefix + value + suffix
}

fn make_invalid(prefix: &str, value: &String, suffix: &str) -> (e: InvalidValue)
    ensures
        e.message@ == invalid_message(prefix@, value@, suffix@),
{
    let mut m = string_from(prefix);
    push_str(&mut m, value.as_str());
    push_str(&mut m, suffix);
    InvalidValue { message: m }
}

// ---------------------------------------------------------------------------
// Step result
// ---------------------------------------------------------------------------

/// Outcome of a single reported step.
#[derive(Debug, Clone, Copy, PartialEq, Eq, Structural)]
pub enum Result {
    Pass,
    Fail,
    Warning,
    Skipped,
}

pub open spec fn result_str(r: Result) -> Seq<char> {
    match r {
        Result::Pass => "pass"@,
        Result::Fail => "fail"@,
        Result::Warning => "warning"@,
        Result::Skipped => "skipped"@,
    }
}

pub open spec fn result_label(r: Result) -> Seq<char> {
    match r {
        Result::Pass => "Pass"@,
        Result::Fail => "Fail"@,
        Result::Warning => "Warning"@,
        Result::Skipped => "Skipped"@,
    }
}

/// The words `Result::parse` accepts, compared after ASCII lowercasing.
pub open spec fn parse_result(s: Seq<char>) -> Option<Result> {
    let l = ascii_lower(s);
    if l == "pass"@ || l == "passed"@ || l == "ok"@ {
        Some(Result::Pass)
    } else if l == "fail"@ || l == "failed"@ {
        Some(Result::Fail)
    } else if l == "warning"@ || l == "warn"@ {
        Some(Result::Warning)
    } else if l == "skip"@ || l == "skipped"@ {
        Some(Result::Skipped)
    } else {
        None
    }
}

impl Result {
    pub fn as_str(&self) -> (s: &'static str)
        ensures
            s@ == result_str(*self),
    {
        match self {
            Result::Pass => "pass",
            Result::Fail => "fail",
            Result::Warning => "warning",
            Result::Skipped => "skipped",
        }
    }

    pub fn label(&self) -> (s: &'static str)
        ensures
            s@ == result_label(*self),
    {
        match self {
            Result::Pass => "Pass",
            Result::Fail => "Fail",
            Result::Warning => "Warning",
            Result::Skipped => "Skipped",
        }
    }

    /// Accepts `pass|passed|ok`, `fail|failed`, `warning|warn`,
    /// `skip|skipped`, in any ASCII case.
    pub fn parse(s: &str) -> (r: core::result::Result<Result, InvalidValue>)
        ensures
            r is Ok <==> parse_result(s@) is Some,
            r matches Ok(v) ==> parse_result(s@) == Some(v),
            r matches Err(e) ==> e.message@ == invalid_message(
                "invalid result '"@,
                ascii_lower(s@),
                "' — use pass, fail, warning, or skipped"@,
            ),
    {
        let l = to_ascii_lowercase(s);
        let t = l.as_str();
        if str_eq(t, "pass") || str_eq(t, "passed") || str_eq(t, "ok") {
            Ok(Result::Pass)
        } else if str_eq(t, "fail") || str_eq(t, "failed") {
            Ok(Result::Fail)
        } else if str_eq(t, "warning") || str_eq(t, "warn") {
            Ok(Result::Warning)
        } else if str_eq(t, "skip") || str_eq(t, "skipped") {
            Ok(Result::Skipped)
        } else {
            Err(make_invalid("invalid result '", &l, "' — use pass, fail, warning, or skipped"))
        }
    }
}

// ---------------------------------------------------------------------------
// Note scope
// ---------------------------------------------------------------------------

/// Whether a note is about what the run set out to test.
#[derive(Debug, Clone, Copy, PartialEq, Eq, Structural)]
pub enum Scope {
    In,
    Out,
}

pub open spec fn scope_str(s: Scope) -> Seq<char> {
    match s {
        Scope::In => "in"@,
        Scope::Out => "out"@,
    }
}

pub open spec fn scope_label(s: Scope) -> Seq<char> {
    match s {
        Scope::In => "In scope"@,
        Scope::Out => "Out of scope"@,
    }
}

/// The words `Scope::parse` accepts, compared after ASCII lowercasing.
pub open spec fn parse_scope(s: Seq<char>) -> Option<Scope> {
    let l = ascii_lower(s);
    if l == "in"@ || l == "in-scope"@ || l == "inscope"@ {
        Some(Scope::In)
    } else if l == "out"@ || l == "out-of-scope"@ || l == "outofscope"@ {
        Some(Scope::Out)
    } else {
        None
    }
}

impl Scope {
    pub fn as_str(&self) -> (s: &'static str)
        ensures
            s@ == scope_str(*self),
    {
        match self {
            Scope::In => "in",
            Scope::Out => "out",
        }
    }

    pub fn label(&self) -> (s: &'static str)
        ensures
            s@ == scope_label(*self),
    {
        match self {
            Scope::In => "In scope",
            Scope::Out => "Out of scope",
        }
    }

    /// Accepts `in|in-scope|inscope` and `out|out-of-scope|outofscope`, in
    /// any ASCII case.
    pub fn parse(s: &str) -> (r: core::result::Result<Scope, InvalidValue>)
        ensures
            r is Ok <==> parse_scope(s@) is Some,
            r matches Ok(v) ==> parse_scope(s@) == Some(v),
            r matches Err(e) ==> e.message@ == invalid_message(
                "invalid scope '"@,
                ascii_lower(s@),
                "' — use 'in' or 'out'"@,
            ),
    {
        let l = to_ascii_lowercase(s);
        let t = l.as_str();
        if str_eq(t, "in") || str_eq(t, "in-scope") || str_eq(t, "inscope") {
            Ok(Scope::In)
        } else if str_eq(t, "out") || str_eq(t, "out-of-scope") || str_eq(t, "outofscope") {
            Ok(Scope::Out)
        } else {
            Err(make_invalid("invalid scope '", &l, "' — use 'in' or 'out'"))
        }
    }
}

// ---------------------------------------------------------------------------
// Note kind
// ---------------------------------------------------------------------------

/// What kind of observation a note records; bugs are triaged first.
#[derive(Debug, Clone, Copy, PartialEq, Eq, Structural)]
pub enum Kind {
    Bug,
    Polish,
    Question,
    Info,
}

pub open spec fn kind_str(k: Kind) -> Seq<char> {
    match k {
        Kind::Bug => "bug"@,
        Kind::Polish => "polish"@,
        Kind::Question => "question"@,
        Kind::Info => "info"@,
    }
}

pub open spec fn kind_label(k: Kind) -> Seq<char> {
    match k {
        Kind::Bug => "Bug"@,
        Kind::Polish => "Polish"@,
        Kind::Question => "Question"@,
        Kind::Info => "Info"@,
    }
}

pub open spec fn kind_emoji(k: Kind) -> Seq<char> {
    match k {
        Kind::Bug => "🐛"@,
        Kind::Polish => "✏️"@,
        Kind::Question => "❓"@,
        Kind::Info => "ℹ️"@,
    }
}

/// Triage order: bugs, polish, questions, then plain information.
pub open spec fn kind_priority(k: Kind) -> nat {
    match k {
        Kind::Bug => 0,
        Kind::Polish => 1,
        Kind::Question => 2,
        Kind::Info => 3,
    }
}

pub open spec fn parse_kind(s: Seq<char>) -> Option<Kind> {
    let l = ascii_lower(s);
    if l == "bug"@ {
        Some(Kind::Bug)
    } else if l == "polish"@ {
        Some(Kind::Polish)
    } else if l == "question"@ {
        Some(Kind::Question)
    } else if l == "info"@ {
        Some(Kind::Info)
    } else {
        None
    }
}

impl Kind {
    pub fn as_str(&self) -> (s: &'static str)
        ensures
            s@ == kind_str(*self),
    {
        match self {
            Kind::Bug => "bug",
            Kind::Polish => "polish",
            Kind::Question => "question",
            Kind::Info => "info",
        }
    }

    pub fn label(&self) -> (s: &'static str)
        ensures
            s@ == kind_label(*self),
    {
        match self {
            Kind::Bug => "Bug",
            Kind::Polish => "Polish",
            Kind::Question => "Question",
            Kind::Info => "Info",
        }
    }

    pub fn emoji(&self) -> (s: &'static str)
        ensures
            s@ == kind_emoji(*self),
    {
        match self {
            Kind::Bug => "🐛",
            Kind::Polish => "✏️",
            Kind::Question => "❓",
            Kind::Info => "ℹ️",
        }
    }

    pub fn sort_priority(&self) -> (p: u8)
        ensures
            p as nat == kind_priority(*self),
    {
        match self {
            Kind::Bug => 0,
            Kind::Polish => 1,
            Kind::Question => 2,
            Kind::Info => 3,
        }
    }

    /// Accepts `bug`, `polish`, `question`, `info`, in any ASCII case.
    pub fn parse(s: &str) -> (r: core::result::Result<Kind, InvalidValue>)
        ensures
            r is Ok <==> parse_kind(s@) is Some,
            r matches Ok(v) ==> parse_kind(s@) == Some(v),
            r matches Err(e) ==> e.message@ == invalid_message(
                "invalid kind '"@,
                ascii_lower(s@),
                "' — use bug, polish, question, or info"@,
            ),
    {
        let l = to_ascii_lowercase(s);
        let t = l.as_str();
        if str_eq(t, "bug") {
            Ok(Kind::Bug)
        } else if str_eq(t, "polish") {
            Ok(Kind::Polish)
        } else if str_eq(t, "question") {
            Ok(Kind::Question)
        } else if str_eq(t, "info") {
            Ok(Kind::Info)
        } else {
            Err(make_invalid("invalid kind '", &l, "' — use bug, polish, question, or info"))
        }
    }
}

// ---------------------------------------------------------------------------
// Feedback and attachment targets, reviews
// ---------------------------------------------------------------------------

/// What a piece of human feedback is attached to.
#[derive(Debug, Clone, Copy, PartialEq, Eq, Structural)]
pub enum FeedbackTarget {
    Note,
    Test,
    Run,
}

pub open spec fn feedback_target_str(t: FeedbackTarget) -> Seq<char> {
    match t {
        FeedbackTarget::Note => "note"@,
        FeedbackTarget::Test => "test"@,
        FeedbackTarget::Run => "run"@,
    }
}

pub open spec fn parse_feedback_target(s: Seq<char>) -> Option<FeedbackTarget> {
    let l = ascii_lower(s);
    if l == "note"@ {
        Some(FeedbackTarget::Note)
    } else if l == "test"@ {
        Some(FeedbackTarget::Test)
    } else if l == "run"@ {
        Some(FeedbackTarget::Run)
    } else {
        None
    }
}

impl FeedbackTarget {
    pub fn as_str(&self) -> (s: &'static str)
        ensures
            s@ == feedback_target_str(*self),
    {
        match self {
            FeedbackTarget::Note => "note",
            FeedbackTarget::Test => "test",
            FeedbackTarget::Run => "run",
        }
    }

    /// Accepts `note`, `test`, `run`, in any ASCII case.
    pub fn parse(s: &str) -> (r: core::result::Result<FeedbackTarget, InvalidValue>)
        ensures
            r is Ok <==> parse_feedback_target(s@) is Some,
            r matches Ok(v) ==> parse_feedback_target(s@) == Some(v),
            r matches Err(e) ==> e.message@ == invalid_message(
                "invalid feedback target '"@,
                ascii_lower(s@),
                "' — use note, test, or run"@,
            ),
    {
        let l = to_ascii_lowercase(s);
        let t = l.as_str();
        if str_eq(t, "note") {
            Ok(FeedbackTarget::Note)
        } else if str_eq(t, "test") {
            Ok(FeedbackTarget::Test)
        } else if str_eq(t, "run") {
            Ok(FeedbackTarget::Run)
        } else {
            Err(make_invalid("invalid feedback target '", &l, "' — use note, test, or run"))
        }
    }
}

/// What a screenshot is attached to.
#[derive(Debug, Clone, Copy, PartialEq, Eq, Structural)]
pub enum AttachmentTarget {
    Note,
    Step,
}

pub open spec fn attachment_target_str(t: AttachmentTarget) -> Seq<char> {
    match t {
        AttachmentTarget::Note => "note"@,
        AttachmentTarget::Step => "step"@,
    }
}

impl AttachmentTarget {
    pub fn as_str(&self) -> (s: &'static str)
        ensures
            s@ == attachment_target_str(*self),
    {
        match self {
            AttachmentTarget::Note => "note",
            AttachmentTarget::Step => "step",
        }
    }
}

/// The subject of a one-shot review filed on a run.
#[derive(Debug, Clone, Copy, PartialEq, Eq, Structural)]
pub enum ReviewKind {
    Security,
    Code,
    Perf,
    Other,
}

pub open spec fn review_kind_str(k: ReviewKind) -> Seq<char> {
    match k {
        ReviewKind::Security => "security"@,
        ReviewKind::Code => "code"@,
        ReviewKind::Perf => "perf"@,
        ReviewKind::Other => "other"@,
    }
}

pub open spec fn review_kind_label(k: ReviewKind) -> Seq<char> {
    match k {
        ReviewKind::Security => "Security"@,
        ReviewKind::Code => "Code"@,
        ReviewKind::Perf => "Perf"@,
        ReviewKind::Other => "Other"@,
    }
}

pub open spec fn review_kind_emoji(k: ReviewKind) -> Seq<char> {
    match k {
        ReviewKind::Security => "🔒"@,
        ReviewKind::Code => "🔍"@,
        ReviewKind::Perf => "⚡"@,
        ReviewKind::Other => "📝"@,
    }
}

impl ReviewKind {
    pub fn as_str(&self) -> (s: &'static str)
        ensures
            s@ == review_kind_str(*self),
    {
        match self {
            ReviewKind::Security => "security",
            ReviewKind::Code => "code",
            ReviewKind::Perf => "perf",
            ReviewKind::Other => "other",
        }
    }

    pub fn label(&self) -> (s: &'static str)
        ensures
            s@ == review_kind_label(*self),
    {
        match self {
            ReviewKind::Security => "Security",
            ReviewKind::Code => "Code",
            ReviewKind::Perf => "Perf",
            ReviewKind::Other => "Other",
        }
    }

    pub fn emoji(&self) -> (s: &'static str)
        ensures
            s@ == review_kind_emoji(*self),
    {
        match self {
            ReviewKind::Security => "🔒",
            ReviewKind::Code => "🔍",
            ReviewKind::Perf => "⚡",
            ReviewKind::Other => "📝",
        }
    }
}

/// A review's overall verdict.
#[derive(Debug, Clone, Copy, PartialEq, Eq, Structural)]
pub enum ReviewVerdict {
    Clean,
    Advisory,
    Blocking,
}

pub open spec fn review_verdict_str(v: ReviewVerdict) -> Seq<char> {
    match v {
        ReviewVerdict::Clean => "clean"@,
        ReviewVerdict::Advisory => "advisory"@,
        ReviewVerdict::Blocking => "blocking"@,
    }
}

pub open spec fn review_verdict_label(v: ReviewVerdict) -> Seq<char> {
    match v {
        ReviewVerdict::Clean => "Clean"@,
        ReviewVerdict::Advisory => "Advisory"@,
        ReviewVerdict::Blocking => "Blocking"@,
    }
}

impl ReviewVerdict {
    pub fn as_str(&self) -> (s: &'static str)
        ensures
            s@ == review_verdict_str(*self),
    {
        match self {
            ReviewVerdict::Clean => "clean",
            ReviewVerdict::Advisory => "advisory",
            ReviewVerdict::Blocking => "blocking",
        }
    }

    pub fn label(&self) -> (s: &'static str)
        ensures
            s@ == review_verdict_label(*self),
    {
        match self {
            ReviewVerdict::Clean => "Clean",
            ReviewVerdict::Advisory => "Advisory",
            ReviewVerdict::Blocking => "Blocking",
        }
    }
}

// ---------------------------------------------------------------------------
// Records
// ---------------------------------------------------------------------------

/// Metadata passed on `start` / `report`; `None` means "not given".
#[derive(Debug, Clone, Default)]
pub struct RunMeta {
    pub description: Option<String>,
    pub branch: Option<String>,
    pub commit_sha: Option<String>,
    pub env: Option<String>,
    pub url: Option<String>,
    pub workdir: Option<String>,
    pub pr_number: Option<i64>,
    pub pr_url: Option<String>,
}

impl RunMeta {
    /// No field was given.
    /// No description, branch, commit, env or url was given (an empty
    /// string given still counts as given).
    pub fn is_empty(&self) -> (r: bool)
        ensures
            r == (self.description is None && self.branch is None && self.commit_sha is None
                && self.env is None && self.url is None),
    {
        self.description.is_none() && self.branch.is_none() && self.commit_sha.is_none()
            && self.env.is_none() && self.url.is_none()
    }
}

/// One testing session, with its aggregate counts.
#[derive(Debug, Clone)]
pub struct Run {
    pub id: i64,
    pub name: String,
    pub description: String,
    pub branch: String,
    pub commit_sha: String,
    pub env: String,
    pub url: String,
    pub workdir: String,
    pub pr_number: Option<i64>,
    pub pr_url: String,
    pub started_at: String,
    pub completed_at: Option<String>,
    pub test_count: i64,
    pub step_count: i64,
    pub note_count: i64,
}

/// A link target that can be put in a markdown link: an `http(s)` URL.
pub open spec fn safe_link(u: Seq<char>) -> bool {
    ||| (u.len() >= 8 && u.take(8) == "https://"@)
    ||| (u.len() >= 7 && u.take(7) == "http://"@)
}

/// `s` starts with `p`.
pub fn has_prefix(s: &str, p: &str) -> (r: bool)
    ensures
        r == (s@.len() >= p@.len() && s@.take(p@.len() as int) == p@),
{
    let x = crate::text::to_chars(s);
    let y = crate::text::to_chars(p);
    if x.len() < y.len() {
        return false;
    }
    let mut i: usize = 0;
    while i < y.len()
        invariant
            x@ == s@,
            y@ == p@,
            y.len() <= x.len(),
            i <= y.len(),
            forall|k: int| 0 <= k < i ==> x@[k] == y@[k],
        decreases y.len() - i,
    {
        if x[i] != y[i] {
            assert(s@.take(p@.len() as int)[i as int] != p@[i as int]);
            return false;
        }
        i = i + 1;
    }
    assert(s@.take(p@.len() as int) =~= p@);
    true
}

impl Run {
    /// Any of branch, commit, env or url is set.
    pub fn has_metadata(&self) -> (r: bool)
        ensures
            r == (self.branch@.len() > 0 || self.commit_sha@.len() > 0 || self.env@.len() > 0
                || self.url@.len() > 0),
    {
        !self.branch.as_str().is_empty() || !self.commit_sha.as_str().is_empty()
            || !self.env.as_str().is_empty() || !self.url.as_str().is_empty()
    }

    /// The PR url may be rendered as a link target.
    pub fn pr_url_is_safe(&self) -> (r: bool)
        ensures
            r == safe_link(self.pr_url@),
    {
        proof {
            reveal_strlit("https://");
            reveal_strlit("http://");
        }
        has_prefix(self.pr_url.as_str(), "https://") || has_prefix(self.pr_url.as_str(), "http://")
    }
}

/// A logical scenario inside a run.
#[derive(Debug, Clone)]
pub struct RunTest {
    pub id: i64,
    pub run_id: i64,
    pub name: String,
    pub first_reported_at: String,
}

/// One reported attempt of one step.
#[derive(Debug, Clone)]
pub struct RunStep {
    pub id: i64,
    pub run_test_id: i64,
    pub name: String,
    pub attempt: i64,
    pub result: Result,
    pub note: String,
    pub reported_at: String,
}

/// A free-text note on a run.
#[derive(Debug, Clone)]
pub struct RunNote {
    pub id: i64,
    pub run_id: i64,
    pub scope: Scope,
    pub kind: Kind,
    pub text: String,
    pub reported_at: String,
}

/// Human feedback left from the dashboard.
#[derive(Debug, Clone)]
pub struct Feedback {
    pub id: i64,
    pub run_id: i64,
    pub target_kind: FeedbackTarget,
    pub target_id: i64,
    pub text: String,
    pub created_at: String,
    pub seen_at: Option<String>,
}

/// A review filed on a run.
#[derive(Debug, Clone)]
pub struct Review {
    pub id: i64,
    pub run_id: i64,
    pub kind: ReviewKind,
    pub verdict: ReviewVerdict,
    pub text: String,
    pub created_at: String,
}

/// A stored screenshot attached to a note or a step.
#[derive(Debug, Clone)]
pub struct Attachment {
    pub id: i64,
    pub target_kind: AttachmentTarget,
    pub target_id: i64,
    pub filename: String,
    pub original_filename: String,
    pub mime_type: String,
    pub bytes: i64,
    pub created_at: String,
}

// ---------------------------------------------------------------------------
// Rollup
// ---------------------------------------------------------------------------

/// Step `i` is the one that counts for its name: no other step of that name
/// has a higher attempt, and no earlier one has the same attempt.
pub open spec fn is_latest(steps: Seq<RunStep>, i: int) -> bool {
    &&& 0 <= i < steps.len()
    &&& forall|j: int|
        0 <= j < steps.len() && #[trigger] steps[j].name@ == steps[i].name@ ==> (steps[j].attempt
            < steps[i].attempt || (steps[j].attempt == steps[i].attempt && i <= j))
}

/// A retry supersedes: reporting step `x` with an attempt above every
/// attempt already reported for its name makes `x` the step that counts for
/// that name, and leaves which steps count for every other name unchanged.
pub proof fn lemma_retry_supersedes(steps: Seq<RunStep>, x: RunStep)
    requires
        forall|j: int|
            0 <= j < steps.len() && #[trigger] steps[j].name@ == x.name@ ==> steps[j].attempt
                < x.attempt,
    ensures
        is_latest(steps.push(x), steps.len() as int),
        forall|i: int|
            0 <= i < steps.len() ==> (#[trigger] is_latest(steps.push(x), i) <==> (is_latest(
                steps,
                i,
            ) && steps[i].name@ != x.name@)),
{
    let t = steps.push(x);
    let n = steps.len() as int;
    assert forall|j: int| 0 <= j < t.len() && #[trigger] t[j].name@ == t[n].name@ implies (t[j].attempt
        < t[n].attempt || (t[j].attempt == t[n].attempt && n <= j)) by {
        if j < n {
            assert(t[j] == steps[j]);
        }
    }
    assert forall|i: int| 0 <= i < steps.len() implies (#[trigger] is_latest(t, i) <==> (is_latest(
        steps,
        i,
    ) && steps[i].name@ != x.name@)) by {
        assert(t[i] == steps[i]);
        if is_latest(t, i) {
            if steps[i].name@ == x.name@ {
                assert(t[n].name@ == t[i].name@);
                assert(false);
            }
            assert forall|j: int| 0 <= j < steps.len() && #[trigger] steps[j].name@ == steps[i].name@ implies (
            steps[j].attempt < steps[i].attempt || (steps[j].attempt == steps[i].attempt && i <= j)) by {
                assert(t[j] == steps[j]);
            }
        }
        if is_latest(steps, i) && steps[i].name@ != x.name@ {
            assert forall|j: int| 0 <= j < t.len() && #[trigger] t[j].name@ == t[i].name@ implies (
            t[j].attempt < t[i].attempt || (t[j].attempt == t[i].attempt && i <= j)) by {
                if j < n {
                    assert(t[j] == steps[j]);
                }
            }
        }
    }
}

/// Some counting step has result `r`.
pub open spec fn latest_has(steps: Seq<RunStep>, r: Result) -> bool {
    exists|i: int| #[trigger] is_latest(steps, i) && steps[i].result == r
}

/// The worst verdict among the counting steps: fail, then warning, then
/// pass; skipped only when every counting step was skipped; `None` without
/// steps.
pub open spec fn rollup_of(steps: Seq<RunStep>) -> Option<Result> {
    if steps.len() == 0 {
        None
    } else if latest_has(steps, Result::Fail) {
        Some(Result::Fail)
    } else if latest_has(steps, Result::Warning) {
        Some(Result::Warning)
    } else if latest_has(steps, Result::Pass) {
        Some(Result::Pass)
    } else {
        Some(Result::Skipped)
    }
}

/// Reports of one step name never repeat an attempt: two reported steps
/// with the same name and attempt are the same report.
pub open spec fn attempts_distinct(steps: Seq<RunStep>) -> bool {
    forall|e: RunStep, f: RunStep|
        #![trigger steps.contains(e), steps.contains(f)]
        steps.contains(e) && steps.contains(f) && e.name@ == f.name@ && e.attempt == f.attempt ==> e
            == f
}

/// Report `e` is among `steps` and no report of its name has a higher
/// attempt.
pub open spec fn counts_among(steps: Seq<RunStep>, e: RunStep) -> bool {
    &&& steps.contains(e)
    &&& forall|f: RunStep| #[trigger] steps.contains(f) && f.name@ == e.name@ ==> f.attempt <= e.attempt
}

proof fn lemma_first_index(s: Seq<RunStep>, e: RunStep) -> (i: int)
    requires
        s.contains(e),
    ensures
        0 <= i < s.len(),
        s[i] == e,
        forall|k: int| 0 <= k < i ==> s[k] != e,
    decreases s.len(),
{
    if s[0] == e {
        0
    } else {
        let j = choose|j: int| 0 <= j < s.len() && s[j] == e;
        assert(s.drop_first()[j - 1] == e);
        let i = lemma_first_index(s.drop_first(), e);
        assert forall|k: int| 0 <= k < i + 1 implies s[k] != e by {
            if k > 0 {
                assert(s[k] == s.drop_first()[k - 1]);
            }
        }
        i + 1
    }
}

/// With attempts distinct, some counting step has result `r` exactly when
/// some report that counts among the steps has it.
proof fn lemma_latest_has_by_reports(steps: Seq<RunStep>, r: Result)
    requires
        attempts_distinct(steps),
    ensures
        latest_has(steps, r) <==> exists|e: RunStep| #[trigger] counts_among(steps, e) && e.result == r,
{
    if latest_has(steps, r) {
        let i = choose|i: int| #[trigger] is_latest(steps, i) && steps[i].result == r;
        let e = steps[i];
        assert(steps.contains(e));
        assert forall|f: RunStep| #[trigger] steps.contains(f) && f.name@ == e.name@ implies f.attempt <= e.attempt by {
            let j = choose|j: int| 0 <= j < steps.len() && steps[j] == f;
            assert(steps[j].name@ == steps[i].name@);
        }
        assert(counts_among(steps, e));
    }
    if exists|e: RunStep| #[trigger] counts_among(steps, e) && e.result == r {
        let e = choose|e: RunStep| #[trigger] counts_among(steps, e) && e.result == r;
        let i = lemma_first_index(steps, e);
        assert forall|j: int|
            0 <= j < steps.len() && #[trigger] steps[j].name@ == steps[i].name@ implies (steps[j].attempt
            < steps[i].attempt || (steps[j].attempt == steps[i].attempt && i <= j)) by {
            let f = steps[j];
            assert(steps.contains(f));
            assert(f.attempt <= e.attempt);
            if f.attempt == e.attempt {
                assert(steps.contains(e));
                assert(f == e);
            }
        }
        assert(is_latest(steps, i));
    }
}

/// The rollup does not depend on the order in which steps were reported:
/// any reordering of the same reports has the same rollup.
pub proof fn lemma_rollup_ignores_order(steps: Seq<RunStep>, reordered: Seq<RunStep>)
    requires
        attempts_distinct(steps),
        reordered.to_multiset() == steps.to_multiset(),
    ensures
        rollup_of(reordered) == rollup_of(steps),
{
    broadcast use vstd::seq_lib::group_to_multiset_ensures;
    assert forall|e: RunStep| #[trigger] reordered.contains(e) <==> steps.contains(e) by {
        assert(reordered.contains(e) <==> reordered.to_multiset().count(e) > 0);
        assert(steps.contains(e) <==> steps.to_multiset().count(e) > 0);
    }
    assert(reordered.len() == steps.len()) by {
        assert(reordered.len() == reordered.to_multiset().len());
        assert(steps.len() == steps.to_multiset().len());
    }
    assert(attempts_distinct(reordered));
    assert forall|e: RunStep| #[trigger] counts_among(reordered, e) <==> counts_among(steps, e) by {
        if counts_among(reordered, e) {
            assert forall|f: RunStep| #[trigger] steps.contains(f) && f.name@ == e.name@ implies f.attempt
                <= e.attempt by {
                assert(reordered.contains(f));
            }
        }
        if counts_among(steps, e) {
            assert forall|f: RunStep| #[trigger] reordered.contains(f) && f.name@ == e.name@ implies f.attempt
                <= e.attempt by {
                assert(steps.contains(f));
            }
        }
    }
    assert forall|r: Result| latest_has(reordered, r) <==> latest_has(steps, r) by {
        lemma_latest_has_by_reports(steps, r);
        lemma_latest_has_by_reports(reordered, r);
        if exists|e: RunStep| #[trigger] counts_among(steps, e) && e.result == r {
            let e = choose|e: RunStep| #[trigger] counts_among(steps, e) && e.result == r;
            assert(counts_among(reordered, e));
        }
        if exists|e: RunStep| #[trigger] counts_among(reordered, e) && e.result == r {
            let e = choose|e: RunStep| #[trigger] counts_among(reordered, e) && e.result == r;
            assert(counts_among(steps, e));
        }
    }
}

/// A superseded report changes nothing: adding a step of a name that
/// already has a higher attempt leaves the rollup as it was.
pub proof fn lemma_superseded_attempt_changes_nothing(steps: Seq<RunStep>, x: RunStep)
    requires
        exists|j: int| 0 <= j < steps.len() && #[trigger] steps[j].name@ == x.name@ && steps[j].attempt > x.attempt,
    ensures
        rollup_of(steps.push(x)) == rollup_of(steps),
{
    let t = steps.push(x);
    let n = steps.len() as int;
    let j0 = choose|j: int| 0 <= j < steps.len() && #[trigger] steps[j].name@ == x.name@ && steps[j].attempt > x.attempt;
    assert(t[j0] == steps[j0]);
    assert(!is_latest(t, n));
    assert forall|i: int| 0 <= i < n implies (#[trigger] is_latest(t, i) <==> is_latest(steps, i)) by {
        assert(t[i] == steps[i]);
        if is_latest(steps, i) {
            assert forall|j: int| 0 <= j < t.len() && #[trigger] t[j].name@ == t[i].name@ implies (t[j].attempt
                < t[i].attempt || (t[j].attempt == t[i].attempt && i <= j)) by {
                if j < n {
                    assert(t[j] == steps[j]);
                } else {
                    assert(steps[j0].name@ == steps[i].name@);
                    assert(steps[j0].attempt <= steps[i].attempt);
                }
            }
        }
        if is_latest(t, i) {
            assert forall|j: int| 0 <= j < steps.len() && #[trigger] steps[j].name@ == steps[i].name@ implies (
            steps[j].attempt < steps[i].attempt || (steps[j].attempt == steps[i].attempt && i <= j)) by {
                assert(t[j] == steps[j]);
            }
        }
    }
    assert forall|r: Result| latest_has(t, r) <==> latest_has(steps, r) by {
        if latest_has(t, r) {
            let i = choose|i: int| #[trigger] is_latest(t, i) && t[i].result == r;
            assert(i != n);
            assert(is_latest(steps, i));
        }
        if latest_has(steps, r) {
            let i = choose|i: int| #[trigger] is_latest(steps, i) && steps[i].result == r;
            assert(is_latest(t, i));
        }
    }
}

/// Step `i` is the only report of its name with the highest attempt.
pub open spec fn newest_of_its_name(steps: Seq<RunStep>, i: int) -> bool {
    &&& 0 <= i < steps.len()
    &&& forall|j: int|
        0 <= j < steps.len() && j != i && #[trigger] steps[j].name@ == steps[i].name@
            ==> steps[j].attempt < steps[i].attempt
}

/// No report of step `i`'s name has a higher attempt.
pub open spec fn not_superseded(steps: Seq<RunStep>, i: int) -> bool {
    &&& 0 <= i < steps.len()
    &&& forall|j: int|
        0 <= j < steps.len() && #[trigger] steps[j].name@ == steps[i].name@ ==> steps[j].attempt
            <= steps[i].attempt
}

/// The rollup's verdict ranks fail over warning over pass over skipped,
/// looking only at each step's newest attempt:
/// - no steps, no verdict;
/// - a step whose newest attempt failed makes the rollup fail, whatever the
///   other steps report;
/// - otherwise a step whose newest attempt warned makes it a warning;
/// - a fail, warning or pass verdict is the result of some step's newest
///   attempt;
/// - skipped only when no step's newest attempt failed, warned or passed.
pub proof fn lemma_rollup_ranks_newest_attempts(steps: Seq<RunStep>, i: int)
    ensures
        rollup_of(steps) is None <==> steps.len() == 0,
        newest_of_its_name(steps, i) && steps[i].result == Result::Fail ==> rollup_of(steps) == Some(
            Result::Fail,
        ),
        newest_of_its_name(steps, i) && steps[i].result == Result::Warning && (forall|j: int|
            0 <= j < steps.len() ==> #[trigger] steps[j].result != Result::Fail) ==> rollup_of(steps)
            == Some(Result::Warning),
        rollup_of(steps) == Some(Result::Fail) ==> exists|k: int|
            #[trigger] not_superseded(steps, k) && steps[k].result == Result::Fail,
        rollup_of(steps) == Some(Result::Warning) ==> exists|k: int|
            #[trigger] not_superseded(steps, k) && steps[k].result == Result::Warning,
        rollup_of(steps) == Some(Result::Pass) ==> exists|k: int|
            #[trigger] not_superseded(steps, k) && steps[k].result == Result::Pass,
        rollup_of(steps) == Some(Result::Skipped) ==> steps.len() > 0 && forall|k: int|
            #[trigger] newest_of_its_name(steps, k) ==> steps[k].result == Result::Skipped,
        rollup_of(steps) == Some(Result::Warning) || rollup_of(steps) == Some(Result::Pass)
            || rollup_of(steps) == Some(Result::Skipped) ==> forall|k: int|
            #[trigger] newest_of_its_name(steps, k) ==> steps[k].result != Result::Fail,
{
    assert forall|k: int| #[trigger] newest_of_its_name(steps, k) implies is_latest(steps, k) by {}
    assert forall|k: int| #[trigger] is_latest(steps, k) implies not_superseded(steps, k) by {
        assert forall|j: int| 0 <= j < steps.len() && #[trigger] steps[j].name@ == steps[k].name@ implies steps[j].attempt
            <= steps[k].attempt by {}
    }
    if newest_of_its_name(steps, i) {
        assert(is_latest(steps, i));
    }
    if newest_of_its_name(steps, i) && steps[i].result == Result::Warning && (forall|j: int|
        0 <= j < steps.len() ==> #[trigger] steps[j].result != Result::Fail) {
        assert(!latest_has(steps, Result::Fail));
        assert(latest_has(steps, Result::Warning));
    }
    if rollup_of(steps) == Some(Result::Fail) {
        let k = choose|k: int| #[trigger] is_latest(steps, k) && steps[k].result == Result::Fail;
        assert(not_superseded(steps, k));
    }
    if rollup_of(steps) == Some(Result::Warning) {
        let k = choose|k: int| #[trigger] is_latest(steps, k) && steps[k].result == Result::Warning;
        assert(not_superseded(steps, k));
    }
    if rollup_of(steps) == Some(Result::Pass) {
        let k = choose|k: int| #[trigger] is_latest(steps, k) && steps[k].result == Result::Pass;
        assert(not_superseded(steps, k));
    }
    if rollup_of(steps) == Some(Result::Skipped) {
        assert forall|k: int| #[trigger] newest_of_its_name(steps, k) implies steps[k].result
            == Result::Skipped by {
            assert(is_latest(steps, k));
            assert(!(is_latest(steps, k) && steps[k].result == Result::Fail));
            assert(!(is_latest(steps, k) && steps[k].result == Result::Warning));
            assert(!(is_latest(steps, k) && steps[k].result == Result::Pass));
        }
    }
    if rollup_of(steps) != Some(Result::Fail) && rollup_of(steps) is Some {
        assert forall|k: int| #[trigger] newest_of_its_name(steps, k) implies steps[k].result
            != Result::Fail by {
            assert(is_latest(steps, k));
        }
    }
}

/// Whether `steps[i]` counts for its name.
pub fn step_is_latest(steps: &[RunStep], i: usize) -> (r: bool)
    requires
        i < steps@.len(),
    ensures
        r == is_latest(steps@, i as int),
{
    let mut j: usize = 0;
    while j < steps.len()
        invariant
            i < steps@.len(),
            j <= steps@.len(),
            forall|k: int|
                0 <= k < j && #[trigger] steps@[k].name@ == steps@[i as int].name@ ==> (
                steps@[k].attempt < steps@[i as int].attempt || (steps@[k].attempt
                    == steps@[i as int].attempt && i <= k)),
        decreases steps@.len() - j,
    {
        if steps[j].name == steps[i].name {
            if steps[j].attempt > steps[i].attempt || (steps[j].attempt == steps[i].attempt && j
                < i) {
                return false;
            }
        }
        j = j + 1;
    }
    true
}

/// Aggregate the latest attempt of each step into a single rollup verdict.
/// Returns the worst-case status: any fail → fail; else any warning → warning;
/// else if every recorded latest-attempt is skipped → skipped; else pass.
/// `None` means there are no steps.
pub fn rollup(steps: &[RunStep]) -> (r: Option<Result>)
    ensures
        r == rollup_of(steps@),
{
    if steps.len() == 0 {
        return None;
    }
    let mut has_fail = false;
    let mut has_warn = false;
    let mut has_pass = false;
    let mut i: usize = 0;
    while i < steps.len()
        invariant
            i <= steps@.len(),
            has_fail == exists|k: int|
                0 <= k < i && #[trigger] is_latest(steps@, k) && steps@[k].result == Result::Fail,
            has_warn == exists|k: int|
                0 <= k < i && #[trigger] is_latest(steps@, k) && steps@[k].result
                    == Result::Warning,
            has_pass == exists|k: int|
                0 <= k < i && #[trigger] is_latest(steps@, k) && steps@[k].result == Result::Pass,
        decreases steps@.len() - i,
    {
        if step_is_latest(steps, i) {
            match steps[i].result {
                Result::Fail => has_fail = true,
                Result::Warning => has_warn = true,
                Result::Pass => has_pass = true,
                Result::Skipped => {},
            }
        }
        i = i + 1;
    }
    if has_fail {
        return Some(Result::Fail);
    }
    if has_warn {
        return Some(Result::Warning);
    }
    if has_pass {
        return Some(Result::Pass);
    }
    Some(Result::Skipped)
}

// ---------------------------------------------------------------------------
// Exact copies
// ---------------------------------------------------------------------------

fn copy_opt_string(s: &Option<String>) -> (r: Option<String>)
    ensures
        r == *s,
{
    match s {
        Some(x) => Some(x.clone()),
        None => None,
    }
}

impl Run {
    /// A copy equal to `self`.
    pub fn copied(&self) -> (r: Run)
        ensures
            r == *self,
    {
        Run {
            id: self.id,
            name: self.name.clone(),
            description: self.description.clone(),
            branch: self.branch.clone(),
            commit_sha: self.commit_sha.clone(),
            env: self.env.clone(),
            url: self.url.clone(),
            workdir: self.workdir.clone(),
            pr_number: self.pr_number,
            pr_url: self.pr_url.clone(),
            started_at: self.started_at.clone(),
            completed_at: copy_opt_string(&self.completed_at),
            test_count: self.test_count,
            step_count: self.step_count,
            note_count: self.note_count,
        }
    }
}

impl RunTest {
    /// A copy equal to `self`.
    pub fn copied(&self) -> (r: RunTest)
        ensures
            r == *self,
    {
        RunTest {
            id: self.id,
            run_id: self.run_id,
            name: self.name.clone(),
            first_reported_at: self.first_reported_at.clone(),
        }
    }
}

impl RunStep {
    /// A copy equal to `self`.
    pub fn copied(&self) -> (r: RunStep)
        ensures
            r == *self,
    {
        RunStep {
            id: self.id,
            run_test_id: self.run_test_id,
            name: self.name.clone(),
            attempt: self.attempt,
            result: self.result,
            note: self.note.clone(),
            reported_at: self.reported_at.clone(),
        }
    }
}

impl RunNote {
    /// A copy equal to `self`.
    pub fn copied(&self) -> (r: RunNote)
        ensures
            r == *self,
    {
        RunNote {
            id: self.id,
            run_id: self.run_id,
            scope: self.scope,
            kind: self.kind,
            text: self.text.clone(),
            reported_at: self.reported_at.clone(),
        }
    }
}

impl Feedback {
    /// A copy equal to `self`.
    pub fn copied(&self) -> (r: Feedback)
        ensures
            r == *self,
    {
        Feedback {
            id: self.id,
            run_id: self.run_id,
            target_kind: self.target_kind,
            target_id: self.target_id,
            text: self.text.clone(),
            created_at: self.created_at.clone(),
            seen_at: copy_opt_string(&self.seen_at),
        }
    }
}

impl Review {
    /// A copy equal to `self`.
    pub fn copied(&self) -> (r: Review)
        ensures
            r == *self,
    {
        Review {
            id: self.id,
            run_id: self.run_id,
            kind: self.kind,
            verdict: self.verdict,
            text: self.text.clone(),
            created_at: self.created_at.clone(),
        }
    }
}

impl Attachment {
    /// A copy equal to `self`.
    pub fn copied(&self) -> (r: Attachment)
        ensures
            r == *self,
    {
        Attachment {
            id: self.id,
            target_kind: self.target_kind,
            target_id: self.target_id,
            filename: self.filename.clone(),
            original_filename: self.original_filename.clone(),
            mime_type: self.mime_type.clone(),
            bytes: self.bytes,
            created_at: self.created_at.clone(),
        }
    }
}

} // verus!
