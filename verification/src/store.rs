//! The decisions of the SQLite store: how stored text columns decode into
//! the enumerations, which metadata a run insert or upsert writes, the
//! filter query for runs, and which migrations an existing file needs.
use vstd::prelude::*;

use crate::auto::opt_view;
use crate::models::{
    attachment_target_str, feedback_target_str, kind_str, parse_kind, parse_result, parse_scope,
    result_str, review_kind_str, review_verdict_str, scope_str, AttachmentTarget, FeedbackTarget,
    Kind, Result, ReviewKind, ReviewVerdict, RunMeta, Scope,
};
use crate::text::{ascii_lower, join, push_str, str_eq, string_from};

verus! {

// ---------------------------------------------------------------------------
// Decoding stored columns
// ---------------------------------------------------------------------------

/// A stored result; text that names none reads as skipped.
pub open spec fn result_of_column(s: Seq<char>) -> Result {
    match parse_result(s) {
        Some(x) => x,
        None => Result::Skipped,
    }
}

/// A stored scope; text that names none reads as in scope.
pub open spec fn scope_of_column(s: Seq<char>) -> Scope {
    match parse_scope(s) {
        Some(x) => x,
        None => Scope::In,
    }
}

/// A stored note kind; text that names none (and notes stored before kinds
/// existed) reads as information.
pub open spec fn kind_of_column(s: Seq<char>) -> Kind {
    match parse_kind(s) {
        Some(x) => x,
        None => Kind::Info,
    }
}

/// A stored feedback target: `test`, `run`, anything else a note.
pub open spec fn feedback_target_of_column(s: Seq<char>) -> FeedbackTarget {
    if s == "test"@ {
        FeedbackTarget::Test
    } else if s == "run"@ {
        FeedbackTarget::Run
    } else {
        FeedbackTarget::Note
    }
}

/// A stored review kind: `security`, `code`, `perf`, anything else other.
pub open spec fn review_kind_of_column(s: Seq<char>) -> ReviewKind {
    if s == "security"@ {
        ReviewKind::Security
    } else if s == "code"@ {
        ReviewKind::Code
    } else if s == "perf"@ {
        ReviewKind::Perf
    } else {
        ReviewKind::Other
    }
}

/// The verdict read from its column: `clean` and `blocking` as named, any other text as advisory.
pub open spec fn review_verdict_of_column(s: Seq<char>) -> ReviewVerdict {
    if s == "clean"@ {
        ReviewVerdict::Clean
    } else if s == "blocking"@ {
        ReviewVerdict::Blocking
    } else {
        ReviewVerdict::Advisory
    }
}

/// A stored attachment target: `step`, anything else a note.
pub open spec fn attachment_target_of_column(s: Seq<char>) -> AttachmentTarget {
    if s == "step"@ {
        AttachmentTarget::Step
    } else {
        AttachmentTarget::Note
    }
}

pub fn result_from_column(s: &str) -> (r: Result)
    ensures
        r == result_of_column(s@),
{
    match Result::parse(s) {
        Ok(r) => r,
        Err(_) => Result::Skipped,
    }
}

pub fn scope_from_column(s: &str) -> (r: Scope)
    ensures
        r == scope_of_column(s@),
{
    match Scope::parse(s) {
        Ok(r) => r,
        Err(_) => Scope::In,
    }
}

pub fn kind_from_column(s: &str) -> (r: Kind)
    ensures
        r == kind_of_column(s@),
{
    match Kind::parse(s) {
        Ok(r) => r,
        Err(_) => Kind::Info,
    }
}

pub fn feedback_target_from_column(s: &str) -> (r: FeedbackTarget)
    ensures
        r == feedback_target_of_column(s@),
{
    if str_eq(s, "test") {
        FeedbackTarget::Test
    } else if str_eq(s, "run") {
        FeedbackTarget::Run
    } else {
        FeedbackTarget::Note
    }
}

pub fn review_kind_from_column(s: &str) -> (r: ReviewKind)
    ensures
        r == review_kind_of_column(s@),
{
    if str_eq(s, "security") {
        ReviewKind::Security
    } else if str_eq(s, "code") {
        ReviewKind::Code
    } else if str_eq(s, "perf") {
        ReviewKind::Perf
    } else {
        ReviewKind::Other
    }
}

pub fn review_verdict_from_column(s: &str) -> (r: ReviewVerdict)
    ensures
        r == review_verdict_of_column(s@),
{
    if str_eq(s, "clean") {
        ReviewVerdict::Clean
    } else if str_eq(s, "blocking") {
        ReviewVerdict::Blocking
    } else {
        ReviewVerdict::Advisory
    }
}

pub fn attachment_target_from_column(s: &str) -> (r: AttachmentTarget)
    ensures
        r == attachment_target_of_column(s@),
{
    if str_eq(s, "step") {
        AttachmentTarget::Step
    } else {
        AttachmentTarget::Note
    }
}

proof fn lemma_lowercase_unchanged(s: Seq<char>)
    requires
        forall|i: int| 0 <= i < s.len() ==> !('A' <= #[trigger] s[i] && s[i] <= 'Z'),
    ensures
        ascii_lower(s) == s,
{
    assert(ascii_lower(s) =~= s);
}

proof fn lemma_result_read_back(r: Result)
    ensures
        result_of_column(result_str(r)) == r,
{
    reveal_strlit("pass");
    reveal_strlit("passed");
    reveal_strlit("ok");
    reveal_strlit("fail");
    reveal_strlit("failed");
    reveal_strlit("warning");
    reveal_strlit("warn");
    reveal_strlit("skip");
    reveal_strlit("skipped");
    lemma_lowercase_unchanged(result_str(r));
    match r {
        Result::Pass => {},
        Result::Fail => {
            assert("fail"@[0] != "pass"@[0]);
        },
        Result::Warning => {
            assert("warning"@[0] != "passed"@[0]);
        },
        Result::Skipped => {
            assert("skipped"@[0] != "passed"@[0]);
            assert("skipped"@[0] != "warning"@[0]);
        },
    }
}

proof fn lemma_scope_read_back(sc: Scope)
    ensures
        scope_of_column(scope_str(sc)) == sc,
{
    reveal_strlit("in");
    reveal_strlit("in-scope");
    reveal_strlit("inscope");
    reveal_strlit("out");
    lemma_lowercase_unchanged(scope_str(sc));
}

proof fn lemma_kind_read_back(k: Kind)
    ensures
        kind_of_column(kind_str(k)) == k,
{
    reveal_strlit("bug");
    reveal_strlit("polish");
    reveal_strlit("question");
    reveal_strlit("info");
    lemma_lowercase_unchanged(kind_str(k));
    match k {
        Kind::Bug => {},
        Kind::Polish => {},
        Kind::Question => {},
        Kind::Info => {
            assert("info"@[0] != "bug"@[0]);
        },
    }
}

proof fn lemma_feedback_target_read_back(t: FeedbackTarget)
    ensures
        feedback_target_of_column(feedback_target_str(t)) == t,
{
    reveal_strlit("note");
    reveal_strlit("test");
    reveal_strlit("run");
    assert("note"@[0] != "test"@[0]);
}

proof fn lemma_review_kind_read_back(k: ReviewKind)
    ensures
        review_kind_of_column(review_kind_str(k)) == k,
{
    reveal_strlit("security");
    reveal_strlit("code");
    reveal_strlit("perf");
    reveal_strlit("other");
    match k {
        ReviewKind::Security => {},
        ReviewKind::Code => {},
        ReviewKind::Perf => {
            assert("perf"@[0] != "code"@[0]);
            assert("perf"@.len() != "security"@.len());
        },
        ReviewKind::Other => {
            assert("other"@.len() != "security"@.len());
            assert("other"@.len() != "code"@.len());
            assert("other"@.len() != "perf"@.len());
        },
    }
}

proof fn lemma_review_verdict_read_back(v: ReviewVerdict)
    ensures
        review_verdict_of_column(review_verdict_str(v)) == v,
{
    reveal_strlit("clean");
    reveal_strlit("advisory");
    reveal_strlit("blocking");
    assert("advisory"@[0] != "blocking"@[0]);
}

proof fn lemma_attachment_target_read_back(t: AttachmentTarget)
    ensures
        attachment_target_of_column(attachment_target_str(t)) == t,
{
    reveal_strlit("note");
    reveal_strlit("step");
    assert("note"@[0] != "step"@[0]);
}

/// What is written reads back: each enumeration stored as its `as_str`
/// text decodes from its column as the value that was written.
pub proof fn lemma_columns_read_back(
    r: Result,
    sc: Scope,
    k: Kind,
    ft: FeedbackTarget,
    rk: ReviewKind,
    rv: ReviewVerdict,
    at: AttachmentTarget,
)
    ensures
        result_of_column(result_str(r)) == r,
        scope_of_column(scope_str(sc)) == sc,
        kind_of_column(kind_str(k)) == k,
        feedback_target_of_column(feedback_target_str(ft)) == ft,
        review_kind_of_column(review_kind_str(rk)) == rk,
        review_verdict_of_column(review_verdict_str(rv)) == rv,
        attachment_target_of_column(attachment_target_str(at)) == at,
{
    lemma_result_read_back(r);
    lemma_scope_read_back(sc);
    lemma_kind_read_back(k);
    lemma_feedback_target_read_back(ft);
    lemma_review_kind_read_back(rk);
    lemma_review_verdict_read_back(rv);
    lemma_attachment_target_read_back(at);
}

// ---------------------------------------------------------------------------
// Run metadata
// ---------------------------------------------------------------------------

/// The metadata columns of a stored run.
#[derive(Debug, Clone)]
pub struct RunColumns {
    pub description: String,
    pub branch: String,
    pub commit_sha: String,
    pub env: String,
    pub url: String,
    pub workdir: String,
    pub pr_number: Option<i64>,
    pub pr_url: String,
}

pub open spec fn or_empty(o: Option<Seq<char>>) -> Seq<char> {
    match o {
        Some(s) => s,
        None => Seq::empty(),
    }
}

/// The columns a new run is inserted with: every text field given or empty.
pub open spec fn insert_columns_ok(c: RunColumns, meta: RunMeta) -> bool {
    &&& c.description@ == or_empty(opt_view(meta.description))
    &&& c.branch@ == or_empty(opt_view(meta.branch))
    &&& c.commit_sha@ == or_empty(opt_view(meta.commit_sha))
    &&& c.env@ == or_empty(opt_view(meta.env))
    &&& c.url@ == or_empty(opt_view(meta.url))
    &&& c.workdir@ == or_empty(opt_view(meta.workdir))
    &&& c.pr_number == meta.pr_number
    &&& c.pr_url@ == or_empty(opt_view(meta.pr_url))
}

fn value_or_empty(o: &Option<String>) -> (r: String)
    ensures
        r@ == or_empty(opt_view(*o)),
{
    match o {
        Some(s) => s.clone(),
        None => String::new(),
    }
}

/// The column values of a run created with `meta`.
pub fn insert_columns(meta: &RunMeta) -> (c: RunColumns)
    ensures
        insert_columns_ok(c, *meta),
{
    RunColumns {
        description: value_or_empty(&meta.description),
        branch: value_or_empty(&meta.branch),
        commit_sha: value_or_empty(&meta.commit_sha),
        env: value_or_empty(&meta.env),
        url: value_or_empty(&meta.url),
        workdir: value_or_empty(&meta.workdir),
        pr_number: meta.pr_number,
        pr_url: value_or_empty(&meta.pr_url),
    }
}

/// A new run's columns hold each given metadata field in the column of the
/// same name, and the empty string where the field was not given; the PR
/// number is stored as given.
pub proof fn lemma_insert_puts_each_field_in_its_column(c: RunColumns, meta: RunMeta)
    requires
        insert_columns_ok(c, meta),
    ensures
        c.description@ == (match meta.description {
            Some(v) => v@,
            None => Seq::<char>::empty(),
        }),
        c.branch@ == (match meta.branch {
            Some(v) => v@,
            None => Seq::<char>::empty(),
        }),
        c.commit_sha@ == (match meta.commit_sha {
            Some(v) => v@,
            None => Seq::<char>::empty(),
        }),
        c.env@ == (match meta.env {
            Some(v) => v@,
            None => Seq::<char>::empty(),
        }),
        c.url@ == (match meta.url {
            Some(v) => v@,
            None => Seq::<char>::empty(),
        }),
        c.workdir@ == (match meta.workdir {
            Some(v) => v@,
            None => Seq::<char>::empty(),
        }),
        c.pr_url@ == (match meta.pr_url {
            Some(v) => v@,
            None => Seq::<char>::empty(),
        }),
        c.pr_number == meta.pr_number,
{
}

/// One column set by an upsert.
#[derive(Debug, Clone)]
pub struct ColumnUpdate {
    pub column: &'static str,
    pub value: String,
}

/// The text updates for one field: set when a non-empty value was given.
pub open spec fn field_update(column: Seq<char>, value: Option<Seq<char>>) -> Seq<(Seq<char>, Seq<char>)> {
    match value {
        Some(v) => if v.len() > 0 {
            seq![(column, v)]
        } else {
            Seq::empty()
        },
        None => Seq::empty(),
    }
}

/// The text updates an upsert with `meta` makes, in column order.
pub open spec fn metadata_updates_of(meta: RunMeta) -> Seq<(Seq<char>, Seq<char>)> {
    field_update("description"@, opt_view(meta.description)) + field_update(
        "branch"@,
        opt_view(meta.branch),
    ) + field_update("commit_sha"@, opt_view(meta.commit_sha)) + field_update(
        "env"@,
        opt_view(meta.env),
    ) + field_update("url"@, opt_view(meta.url)) + field_update("workdir"@, opt_view(meta.workdir))
        + field_update("pr_url"@, opt_view(meta.pr_url))
}

pub open spec fn updates_view(v: Seq<ColumnUpdate>) -> Seq<(Seq<char>, Seq<char>)> {
    v.map_values(|u: ColumnUpdate| (u.column@, u.value@))
}

fn push_update(v: &mut Vec<ColumnUpdate>, column: &'static str, value: &Option<String>)
    ensures
        updates_view(final(v)@) == updates_view(old(v)@) + field_update(column@, opt_view(*value)),
{
    let ghost before = updates_view(v@);
    match value {
        Some(x) => {
            if !x.as_str().is_empty() {
                v.push(ColumnUpdate { column, value: x.clone() });
            }
        },
        None => {},
    }
    assert(updates_view(v@) =~= before + field_update(column@, opt_view(*value)));
}

/// The column updates an upsert of `meta` on an existing run makes: each
/// text field only when the caller passed something non-empty, so
/// re-running without it leaves the prior value intact. The PR number is
/// set when given.
pub fn metadata_updates(meta: &RunMeta) -> (r: (Vec<ColumnUpdate>, Option<i64>))
    ensures
        updates_view(r.0@) == metadata_updates_of(*meta),
        r.1 == meta.pr_number,
{
    let mut v: Vec<ColumnUpdate> = Vec::new();
    assert(updates_view(v@) =~= Seq::<(Seq<char>, Seq<char>)>::empty());
    push_update(&mut v, "description", &meta.description);
    push_update(&mut v, "branch", &meta.branch);
    push_update(&mut v, "commit_sha", &meta.commit_sha);
    push_update(&mut v, "env", &meta.env);
    push_update(&mut v, "url", &meta.url);
    push_update(&mut v, "workdir", &meta.workdir);
    push_update(&mut v, "pr_url", &meta.pr_url);
    assert(updates_view(v@) =~= metadata_updates_of(*meta));
    (v, meta.pr_number)
}

/// The stored value of one text column after an upsert: the given value
/// when it is non-empty, else the prior one.
pub open spec fn upsert_field(prior: Seq<char>, given: Option<Seq<char>>) -> Seq<char> {
    match given {
        Some(v) => if v.len() > 0 {
            v
        } else {
            prior
        },
        None => prior,
    }
}

/// The value an UPDATE list leaves in `column`: the last update of that
/// column, else the prior value.
pub open spec fn after_updates(
    prior: Seq<char>,
    column: Seq<char>,
    updates: Seq<(Seq<char>, Seq<char>)>,
) -> Seq<char>
    decreases updates.len(),
{
    if updates.len() == 0 {
        prior
    } else if updates.last().0 == column {
        updates.last().1
    } else {
        after_updates(prior, column, updates.drop_last())
    }
}

proof fn lemma_after_updates_append(
    prior: Seq<char>,
    column: Seq<char>,
    a: Seq<(Seq<char>, Seq<char>)>,
    b: Seq<(Seq<char>, Seq<char>)>,
)
    ensures
        after_updates(prior, column, a + b) == after_updates(
            after_updates(prior, column, a),
            column,
            b,
        ),
    decreases b.len(),
{
    if b.len() > 0 {
        assert((a + b).drop_last() =~= a + b.drop_last());
        assert((a + b).last() == b.last());
        lemma_after_updates_append(prior, column, a, b.drop_last());
    } else {
        assert(a + b =~= a);
    }
}

proof fn lemma_after_field_update(prior: Seq<char>, column: Seq<char>, c: Seq<char>, v: Option<Seq<char>>)
    ensures
        after_updates(prior, column, field_update(c, v)) == if c == column {
            upsert_field(prior, v)
        } else {
            prior
        },
{
    let u = field_update(c, v);
    match v {
        Some(x) => {
            if x.len() > 0 {
                assert(u.last() == (c, x));
                assert(u.drop_last() =~= Seq::<(Seq<char>, Seq<char>)>::empty());
                assert(after_updates(prior, column, u.drop_last()) == prior);
            }
        },
        None => {},
    }
}

/// The text column of the metadata named `column`.
pub open spec fn meta_text(meta: RunMeta, column: Seq<char>) -> Option<Seq<char>> {
    if column == "description"@ {
        opt_view(meta.description)
    } else if column == "branch"@ {
        opt_view(meta.branch)
    } else if column == "commit_sha"@ {
        opt_view(meta.commit_sha)
    } else if column == "env"@ {
        opt_view(meta.env)
    } else if column == "url"@ {
        opt_view(meta.url)
    } else if column == "workdir"@ {
        opt_view(meta.workdir)
    } else {
        opt_view(meta.pr_url)
    }
}

/// The text columns an upsert may write.
pub open spec fn is_meta_text_column(column: Seq<char>) -> bool {
    ||| column == "description"@
    ||| column == "branch"@
    ||| column == "commit_sha"@
    ||| column == "env"@
    ||| column == "url"@
    ||| column == "workdir"@
    ||| column == "pr_url"@
}

/// Upserting keeps what is not passed: after the UPDATEs of an upsert with
/// `meta`, every metadata text column holds the passed value when it is
/// non-empty and its prior value otherwise.
pub proof fn lemma_upsert_keeps_unpassed(prior: Seq<char>, meta: RunMeta, column: Seq<char>)
    requires
        is_meta_text_column(column),
    ensures
        after_updates(prior, column, metadata_updates_of(meta)) == upsert_field(
            prior,
            meta_text(meta, column),
        ),
{
    reveal_strlit("description");
    reveal_strlit("branch");
    reveal_strlit("commit_sha");
    reveal_strlit("env");
    reveal_strlit("url");
    reveal_strlit("workdir");
    reveal_strlit("pr_url");
    let d = field_update("description"@, opt_view(meta.description));
    let b = field_update("branch"@, opt_view(meta.branch));
    let c = field_update("commit_sha"@, opt_view(meta.commit_sha));
    let e = field_update("env"@, opt_view(meta.env));
    let u = field_update("url"@, opt_view(meta.url));
    let w = field_update("workdir"@, opt_view(meta.workdir));
    let p = field_update("pr_url"@, opt_view(meta.pr_url));
    assert(metadata_updates_of(meta) == d + b + c + e + u + w + p);
    lemma_after_updates_append(prior, column, d + b + c + e + u + w, p);
    lemma_after_updates_append(prior, column, d + b + c + e + u, w);
    lemma_after_updates_append(prior, column, d + b + c + e, u);
    lemma_after_updates_append(prior, column, d + b + c, e);
    lemma_after_updates_append(prior, column, d + b, c);
    lemma_after_updates_append(prior, column, d, b);
    let a0 = after_updates(prior, column, d);
    let a1 = after_updates(a0, column, b);
    let a2 = after_updates(a1, column, c);
    let a3 = after_updates(a2, column, e);
    let a4 = after_updates(a3, column, u);
    let a5 = after_updates(a4, column, w);
    lemma_after_field_update(prior, column, "description"@, opt_view(meta.description));
    lemma_after_field_update(a0, column, "branch"@, opt_view(meta.branch));
    lemma_after_field_update(a1, column, "commit_sha"@, opt_view(meta.commit_sha));
    lemma_after_field_update(a2, column, "env"@, opt_view(meta.env));
    lemma_after_field_update(a3, column, "url"@, opt_view(meta.url));
    lemma_after_field_update(a4, column, "workdir"@, opt_view(meta.workdir));
    lemma_after_field_update(a5, column, "pr_url"@, opt_view(meta.pr_url));
    assert(column[0] == 'd' || column[0] == 'b' || column[0] == 'c' || column[0] == 'e'
        || column[0] == 'u' || column[0] == 'w' || column[0] == 'p');
}

/// An upsert with no metadata writes nothing.
pub proof fn lemma_empty_meta_updates_nothing(meta: RunMeta)
    requires
        meta.description is None,
        meta.branch is None,
        meta.commit_sha is None,
        meta.env is None,
        meta.url is None,
        meta.workdir is None,
        meta.pr_url is None,
        meta.pr_number is None,
    ensures
        metadata_updates_of(meta).len() == 0,
{
}

// ---------------------------------------------------------------------------
// Filtering runs
// ---------------------------------------------------------------------------

/// The conditions of the run filter, the branch bound first when both
/// filters are used.
pub open spec fn filter_conditions(branch: bool, pr: bool) -> Seq<Seq<char>> {
    if branch && pr {
        seq!["r.branch = ?1"@, "r.pr_number = ?2"@]
    } else if branch {
        seq!["r.branch = ?1"@]
    } else if pr {
        seq!["r.pr_number = ?1"@]
    } else {
        Seq::empty()
    }
}

/// The `WHERE .. ORDER BY ..` tail of the run filter query.
pub open spec fn filter_clause_of(branch: bool, pr: bool) -> Seq<char> {
    " WHERE "@ + join(filter_conditions(branch, pr), " AND "@) + " ORDER BY r.started_at DESC"@
}

/// A run filter: the query tail and the values to bind.
pub struct RunFilter {
    pub clause: String,
    pub branch: Option<String>,
    pub pr: Option<i64>,
}

/// The filter for runs on a branch and/or PR. An empty branch counts as no
/// branch filter; with neither filter there is no query (`None`), so runs
/// without a branch never show up.
pub fn run_filter(branch: Option<&str>, pr: Option<i64>) -> (r: Option<RunFilter>)
    ensures
        ((branch is None || branch.unwrap()@.len() == 0) && pr is None) <==> r is None,
        r matches Some(f) ==> {
            let b = branch is Some && branch.unwrap()@.len() > 0;
            &&& f.clause@ == filter_clause_of(b, pr is Some)
            &&& (b ==> (f.branch matches Some(x) && x@ == branch.unwrap()@))
            &&& (!b ==> f.branch is None)
            &&& f.pr == pr
        },
{
    let b: Option<&str> = match branch {
        Some(x) => if x.is_empty() {
            None
        } else {
            Some(x)
        },
        None => None,
    };
    if b.is_none() && pr.is_none() {
        return None;
    }
    let has_b = b.is_some();
    let has_p = pr.is_some();
    let mut clause = string_from(" WHERE ");
    if has_b {
        push_str(&mut clause, "r.branch = ?1");
    }
    if has_p {
        if has_b {
            push_str(&mut clause, " AND ");
            push_str(&mut clause, "r.pr_number = ?2");
        } else {
            push_str(&mut clause, "r.pr_number = ?1");
        }
    }
    push_str(&mut clause, " ORDER BY r.started_at DESC");
    proof {
        let cs = filter_conditions(has_b, has_p);
        if has_b && has_p {
            assert(cs.drop_last() =~= seq!["r.branch = ?1"@]);
            assert(cs.drop_last()[0] == "r.branch = ?1"@);
            assert(cs.last() == "r.pr_number = ?2"@);
            assert(join(cs.drop_last(), " AND "@) == "r.branch = ?1"@);
            assert(join(cs, " AND "@) == "r.branch = ?1"@ + " AND "@ + "r.pr_number = ?2"@);
        }
        assert(clause@ =~= filter_clause_of(has_b, has_p));
    }
    let branch_value: Option<String> = match b {
        Some(x) => Some(string_from(x)),
        None => None,
    };
    Some(RunFilter { clause, branch: branch_value, pr })
}

// ---------------------------------------------------------------------------
// Migrations
// ---------------------------------------------------------------------------

/// `col` is among the columns of a table.
pub fn column_exists(columns: &Vec<String>, col: &str) -> (r: bool)
    ensures
        r == exists|i: int| 0 <= i < columns@.len() && #[trigger] columns@[i]@ == col@,
{
    let mut i: usize = 0;
    while i < columns.len()
        invariant
            i <= columns@.len(),
            forall|k: int| 0 <= k < i ==> #[trigger] columns@[k]@ != col@,
        decreases columns@.len() - i,
    {
        if str_eq(columns[i].as_str(), col) {
            return true;
        }
        i = i + 1;
    }
    false
}

pub open spec fn has_column(columns: Seq<String>, col: Seq<char>) -> bool {
    exists|i: int| 0 <= i < columns.len() && #[trigger] columns[i]@ == col
}

/// The metadata text columns a runs table must have.
pub open spec fn run_text_columns() -> Seq<Seq<char>> {
    seq!["branch"@, "commit_sha"@, "env"@, "url"@, "workdir"@, "pr_url"@]
}

/// The `ALTER TABLE` statements that bring an older runs table up to date,
/// given its columns: each missing text column is added as `NOT NULL
/// DEFAULT ''`, then `pr_number` as a nullable integer.
pub open spec fn runs_migrations_of(columns: Seq<String>) -> Seq<Seq<char>> {
    let text = run_text_columns().filter(|c: Seq<char>| !has_column(columns, c)).map_values(
        |c: Seq<char>| "ALTER TABLE runs ADD COLUMN "@ + c + " TEXT NOT NULL DEFAULT ''"@,
    );
    text + if has_column(columns, "pr_number"@) {
        Seq::empty()
    } else {
        seq!["ALTER TABLE runs ADD COLUMN pr_number INTEGER"@]
    }
}

fn push_text_column_migration(out: &mut Vec<String>, columns: &Vec<String>, col: &'static str)
    ensures
        final(out)@.map_values(|s: String| s@) == old(out)@.map_values(|s: String| s@) + if has_column(
            columns@,
            col@,
        ) {
            Seq::<Seq<char>>::empty()
        } else {
            seq!["ALTER TABLE runs ADD COLUMN "@ + col@ + " TEXT NOT NULL DEFAULT ''"@]
        },
{
    let ghost before = out@.map_values(|s: String| s@);
    if !column_exists(columns, col) {
        let mut s = string_from("ALTER TABLE runs ADD COLUMN ");
        push_str(&mut s, col);
        push_str(&mut s, " TEXT NOT NULL DEFAULT ''");
        out.push(s);
    }
    assert(out@.map_values(|s: String| s@) =~= before + if has_column(columns@, col@) {
        Seq::<Seq<char>>::empty()
    } else {
        seq!["ALTER TABLE runs ADD COLUMN "@ + col@ + " TEXT NOT NULL DEFAULT ''"@]
    });
}

/// The migrations of the runs table, in the order they run.
pub fn runs_migrations(columns: &Vec<String>) -> (r: Vec<String>)
    ensures
        r@.map_values(|s: String| s@) == runs_migrations_of(columns@),
{
    let mut out: Vec<String> = Vec::new();
    assert(out@.map_values(|s: String| s@) =~= Seq::<Seq<char>>::empty());
    push_text_column_migration(&mut out, columns, "branch");
    push_text_column_migration(&mut out, columns, "commit_sha");
    push_text_column_migration(&mut out, columns, "env");
    push_text_column_migration(&mut out, columns, "url");
    push_text_column_migration(&mut out, columns, "workdir");
    push_text_column_migration(&mut out, columns, "pr_url");
    let ghost text = out@.map_values(|s: String| s@);
    if !column_exists(columns, "pr_number") {
        out.push(string_from("ALTER TABLE runs ADD COLUMN pr_number INTEGER"));
    }
    proof {
        let f = |c: Seq<char>| !has_column(columns@, c);
        let g = |c: Seq<char>| "ALTER TABLE runs ADD COLUMN "@ + c + " TEXT NOT NULL DEFAULT ''"@;
        let cols = run_text_columns();
        reveal_with_fuel(Seq::filter, 7);
        assert(cols.drop_last().drop_last().drop_last().drop_last().drop_last().drop_last() =~= Seq::<Seq<char>>::empty());
        assert(cols.filter(f).map_values(g) =~= text);
        assert(out@.map_values(|s: String| s@) =~= runs_migrations_of(columns@));
    }
    out
}

/// Notes tables from before note kinds need the `kind` column.
pub fn notes_need_kind(columns: &Vec<String>) -> (r: bool)
    ensures
        r == !has_column(columns@, "kind"@),
{
    !column_exists(columns, "kind")
}

} // verus!
