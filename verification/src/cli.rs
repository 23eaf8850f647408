//! What the command line prints: the confirmation lines of `start`,
//! `report`, `note` and `jot`, and the outcome of `end`.
use vstd::prelude::*;

use crate::auto::{opt_view, AutoMeta};
use crate::dashboard::rollup_label_or;
use crate::models::{
    kind_emoji, kind_label, result_label, rollup, rollup_of, scope_str, Kind, Result, RunMeta,
    Scope,
};
use crate::runpage::{all_steps, TestSteps};
use crate::text::{dec_int, dec_nat, push_i64, push_str, push_usize, string_from};

verus! {

/// The run metadata flags shared by `start` and `report`.
#[derive(Debug, Default)]
pub struct MetaArgs {
    pub branch: Option<String>,
    pub commit: Option<String>,
    pub env: Option<String>,
    pub url: Option<String>,
    pub workdir: Option<String>,
    pub pr: Option<i64>,
}

/// A flag's value when it was given, else what was detected.
pub open spec fn given_or_detected(flag: Option<Seq<char>>, detected: Option<Seq<char>>) -> Option<Seq<char>> {
    match flag {
        Some(v) => Some(v),
        None => detected,
    }
}

fn or_detected(flag: Option<String>, detected: Option<String>) -> (r: Option<String>)
    ensures
        opt_view(r) == given_or_detected(opt_view(flag), opt_view(detected)),
{
    match flag {
        Some(v) => Some(v),
        None => detected,
    }
}

impl MetaArgs {
    /// The metadata to upsert, with the given description: each of branch,
    /// commit and workdir is the flag when it was given, else the value
    /// detected from git and the shell.
    pub fn into_meta(self, description: Option<String>, detected: AutoMeta) -> (m: RunMeta)
        ensures
            opt_view(m.description) == opt_view(description),
            opt_view(m.branch) == given_or_detected(opt_view(self.branch), opt_view(detected.branch)),
            opt_view(m.commit_sha) == given_or_detected(opt_view(self.commit), opt_view(detected.commit)),
            opt_view(m.env) == opt_view(self.env),
            opt_view(m.url) == opt_view(self.url),
            opt_view(m.workdir) == given_or_detected(opt_view(self.workdir), opt_view(detected.workdir)),
            m.pr_number == self.pr,
            m.pr_url is None,
    {
        RunMeta {
            description,
            branch: or_detected(self.branch, detected.branch),
            commit_sha: or_detected(self.commit, detected.commit),
            env: self.env,
            url: self.url,
            workdir: or_detected(self.workdir, detected.workdir),
            pr_number: self.pr,
            pr_url: None,
        }
    }
}

/// `""` for one, `"s"` otherwise.
pub open spec fn plural_of(n: int) -> Seq<char> {
    if n == 1 {
        ""@
    } else {
        "s"@
    }
}

pub fn plural(n: i64) -> (s: &'static str)
    ensures
        s@ == plural_of(n as int),
{
    if n == 1 {
        ""
    } else {
        "s"
    }
}

/// ` · 📎 {n} screenshot{s}`, or nothing without screenshots.
pub open spec fn attachments_suffix_of(n: nat) -> Seq<char> {
    if n == 0 {
        Seq::empty()
    } else {
        " · 📎 "@ + dec_nat(n) + " screenshot"@ + plural_of(n as int)
    }
}

pub fn attachments_suffix(n: usize) -> (s: String)
    ensures
        s@ == attachments_suffix_of(n as nat),
{
    if n == 0 {
        String::new()
    } else {
        let mut s = string_from(" · 📎 ");
        push_usize(&mut s, n);
        push_str(&mut s, " screenshot");
        if n == 1 {
            push_str(&mut s, "");
        } else {
            push_str(&mut s, "s");
        }
        s
    }
}

/// `run {name} (id {id}) ready`.
pub fn start_message(run_name: &str, id: i64) -> (s: String)
    ensures
        s@ == "run "@ + run_name@ + " (id "@ + dec_int(id as int) + ") ready"@,
{
    let mut s = string_from("run ");
    push_str(&mut s, run_name);
    push_str(&mut s, " (id ");
    push_i64(&mut s, id);
    push_str(&mut s, ") ready");
    s
}

/// `{Result} · run={run} test={test} step #{id} attempt={n}{screenshots}`.
pub open spec fn report_message_of(
    result: Result,
    run: Seq<char>,
    test: Seq<char>,
    step_id: int,
    attempt: int,
    attached: nat,
) -> Seq<char> {
    result_label(result) + " · run="@ + run + " test="@ + test + " step #"@ + dec_int(step_id)
        + " attempt="@ + dec_int(attempt) + attachments_suffix_of(attached)
}

pub fn report_message(
    result: Result,
    run: &str,
    test: &str,
    step_id: i64,
    attempt: i64,
    attached: usize,
) -> (s: String)
    ensures
        s@ == report_message_of(result, run@, test@, step_id as int, attempt as int, attached as nat),
{
    let mut s = string_from(result.label());
    push_str(&mut s, " · run=");
    push_str(&mut s, run);
    push_str(&mut s, " test=");
    push_str(&mut s, test);
    push_str(&mut s, " step #");
    push_i64(&mut s, step_id);
    push_str(&mut s, " attempt=");
    push_i64(&mut s, attempt);
    let suffix = attachments_suffix(attached);
    push_str(&mut s, suffix.as_str());
    s
}

/// `note #{id} on {run} ({emoji} {Kind} {scope}){screenshots}`.
pub open spec fn note_message_of(id: int, run: Seq<char>, kind: Kind, scope: Scope, attached: nat) -> Seq<char> {
    "note #"@ + dec_int(id) + " on "@ + run + " ("@ + kind_emoji(kind) + " "@ + kind_label(kind) + " "@
        + scope_str(scope) + ")"@ + attachments_suffix_of(attached)
}

pub fn note_message(id: i64, run: &str, kind: Kind, scope: Scope, attached: usize) -> (s: String)
    ensures
        s@ == note_message_of(id as int, run@, kind, scope, attached as nat),
{
    let mut s = string_from("note #");
    push_i64(&mut s, id);
    push_str(&mut s, " on ");
    push_str(&mut s, run);
    push_str(&mut s, " (");
    push_str(&mut s, kind.emoji());
    push_str(&mut s, " ");
    push_str(&mut s, kind.label());
    push_str(&mut s, " ");
    push_str(&mut s, scope.as_str());
    push_str(&mut s, ")");
    let suffix = attachments_suffix(attached);
    push_str(&mut s, suffix.as_str());
    s
}

/// `jotted #{id} on {run} ({emoji} {Kind}){screenshots}`.
pub open spec fn jot_message_of(id: int, run: Seq<char>, kind: Kind, attached: nat) -> Seq<char> {
    "jotted #"@ + dec_int(id) + " on "@ + run + " ("@ + kind_emoji(kind) + " "@ + kind_label(kind) + ")"@
        + attachments_suffix_of(attached)
}

pub fn jot_message(id: i64, run: &str, kind: Kind, attached: usize) -> (s: String)
    ensures
        s@ == jot_message_of(id as int, run@, kind, attached as nat),
{
    let mut s = string_from("jotted #");
    push_i64(&mut s, id);
    push_str(&mut s, " on ");
    push_str(&mut s, run);
    push_str(&mut s, " (");
    push_str(&mut s, kind.emoji());
    push_str(&mut s, " ");
    push_str(&mut s, kind.label());
    push_str(&mut s, ")");
    let suffix = attachments_suffix(attached);
    push_str(&mut s, suffix.as_str());
    s
}

/// The rollup of a whole run: the latest attempt of each step name over
/// all of its tests.
pub fn run_rollup(tests: &[TestSteps]) -> (r: Option<Result>)
    ensures
        r == rollup_of(all_steps(tests@)),
{
    let mut all: Vec<crate::models::RunStep> = Vec::new();
    let mut i: usize = 0;
    while i < tests.len()
        invariant
            i <= tests@.len(),
            all@ == all_steps(tests@.take(i as int)),
        decreases tests@.len() - i,
    {
        let ghost base = all@;
        let t = &tests[i];
        let mut j: usize = 0;
        while j < t.steps.len()
            invariant
                j <= t.steps@.len(),
                all@ == base + t.steps@.take(j as int),
            decreases t.steps@.len() - j,
        {
            all.push(t.steps[j].copied());
            assert(base + t.steps@.take(j + 1) =~= (base + t.steps@.take(j as int)).push(t.steps@[j as int]));
            j = j + 1;
        }
        assert(t.steps@.take(j as int) =~= t.steps@);
        assert(tests@.take(i + 1).drop_last() =~= tests@.take(i as int));
        i = i + 1;
    }
    assert(tests@.take(i as int) =~= tests@);
    rollup(all.as_slice())
}

/// What `end` prints and how it exits.
pub struct EndOutcome {
    /// The nudge printed on stderr when no out-of-scope note was filed.
    pub nudge: Option<String>,
    /// The line printed on stdout.
    pub summary: String,
    /// Exit with status 1: `--fail-if-failures` was given and the rollup is fail.
    pub exit_failure: bool,
}

/// The reminder to file tangential observations.
pub open spec fn nudge_text(run: Seq<char>) -> Seq<char> {
    "\n⚠  You filed 0 out-of-scope observations on this run.\n"@
        + "   Did you really see nothing tangential — typos, slow loads, console warnings,\n"@
        + "   layout quirks, surprises? If you did, run:\n"@ + "     testito jot --run \""@ + run
        + "\" --text \"...\"\n"@
        + "   Filing has zero cost; silence has real cost (the user has to ask again).\n"@ + "\n"@
}

/// `run {name} completed · {rollup} · 📋 {n} finding{s}`.
pub open spec fn end_summary_of(run: Seq<char>, rollup: Option<Result>, findings: nat) -> Seq<char> {
    "run "@ + run + " completed · "@ + rollup_label_or(rollup, "no steps reported"@) + " · 📋 "@
        + dec_nat(findings) + " finding"@ + plural_of(findings as int)
}

/// The outcome of `end` for a run with the given rollup and number of
/// out-of-scope notes.
pub fn end_outcome(run: &str, rollup: Option<Result>, findings: usize, fail_if_failures: bool) -> (o:
    EndOutcome)
    ensures
        match o.nudge {
            Some(n) => findings == 0 && n@ == nudge_text(run@),
            None => findings != 0,
        },
        o.summary@ == end_summary_of(run@, rollup, findings as nat),
        o.exit_failure == (fail_if_failures && rollup == Some(Result::Fail)),
{
    let nudge = if findings == 0 {
        let mut n = string_from("\n⚠  You filed 0 out-of-scope observations on this run.\n");
        push_str(&mut n, "   Did you really see nothing tangential — typos, slow loads, console warnings,\n");
        push_str(&mut n, "   layout quirks, surprises? If you did, run:\n");
        push_str(&mut n, "     testito jot --run \"");
        push_str(&mut n, run);
        push_str(&mut n, "\" --text \"...\"\n");
        push_str(&mut n, "   Filing has zero cost; silence has real cost (the user has to ask again).\n");
        push_str(&mut n, "\n");
        Some(n)
    } else {
        None
    };
    let mut summary = string_from("run ");
    push_str(&mut summary, run);
    push_str(&mut summary, " completed · ");
    match rollup {
        Some(r) => push_str(&mut summary, r.label()),
        None => push_str(&mut summary, "no steps reported"),
    }
    push_str(&mut summary, " · 📋 ");
    push_usize(&mut summary, findings);
    push_str(&mut summary, " finding");
    if findings == 1 {
        push_str(&mut summary, "");
    } else {
        push_str(&mut summary, "s");
    }
    let exit_failure = fail_if_failures && match rollup {
        Some(Result::Fail) => true,
        _ => false,
    };
    EndOutcome { nudge, summary, exit_failure }
}

} // verus!
