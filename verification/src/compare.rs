//! Side-by-side comparison of two runs: per-test rollups and, inside one
//! test, the latest attempt of each step on either side.
use vstd::prelude::*;

use crate::models::{is_latest, Result, RunStep};
use crate::text::{lemma_seq_lt_irreflexive, lemma_seq_lt_total, lemma_seq_lt_transitive, seq_lt, str_lt};

verus! {

// ---------------------------------------------------------------------------
// Sorted sets of names
// ---------------------------------------------------------------------------

/// Names in strictly increasing order (so each occurs once).
pub open spec fn strictly_sorted(v: Seq<String>) -> bool {
    forall|i: int, j: int| 0 <= i < j < v.len() ==> seq_lt(#[trigger] v[i]@, #[trigger] v[j]@)
}

pub open spec fn holds_name(v: Seq<String>, n: Seq<char>) -> bool {
    exists|k: int| 0 <= k < v.len() && #[trigger] v[k]@ == n
}

/// Adds `s` to a strictly sorted list of names unless it is there already.
pub fn insert_name(v: &mut Vec<String>, s: &String)
    requires
        strictly_sorted(old(v)@),
    ensures
        strictly_sorted(final(v)@),
        forall|n: Seq<char>| #![trigger holds_name(final(v)@, n)] holds_name(final(v)@, n) <==> (holds_name(old(v)@, n) || n == s@),
{
    let mut p: usize = 0;
    while p < v.len() && str_lt(v[p].as_str(), s.as_str())
        invariant
            p <= v@.len(),
            strictly_sorted(v@),
            forall|k: int| 0 <= k < p ==> seq_lt(#[trigger] v@[k]@, s@),
        decreases v@.len() - p,
    {
        p = p + 1;
    }
    if p < v.len() && v[p] == *s {
        proof {
            assert(holds_name(v@, s@));
        }
        return;
    }
    let ghost old_v = v@;
    proof {
        if p < v@.len() {
            lemma_seq_lt_total(v@[p as int]@, s@);
        }
    }
    v.insert(p, s.clone());
    proof {
        let nv = v@;
        assert forall|i: int, j: int| 0 <= i < j < nv.len() implies seq_lt(
            #[trigger] nv[i]@,
            #[trigger] nv[j]@,
        ) by {
            if j < p {
                assert(nv[i] == old_v[i] && nv[j] == old_v[j]);
            } else if j == p {
                assert(nv[i] == old_v[i]);
            } else if i < p {
                assert(nv[i] == old_v[i] && nv[j] == old_v[j - 1]);
                assert(seq_lt(old_v[i]@, s@));
                if j - 1 > p {
                    assert(seq_lt(old_v[p as int]@, old_v[j - 1]@));
                    lemma_seq_lt_transitive(s@, old_v[p as int]@, old_v[j - 1]@);
                }
                lemma_seq_lt_transitive(old_v[i]@, s@, nv[j]@);
            } else if i == p {
                assert(nv[j] == old_v[j - 1]);
                if j - 1 > p {
                    assert(seq_lt(old_v[p as int]@, old_v[j - 1]@));
                    lemma_seq_lt_transitive(s@, old_v[p as int]@, old_v[j - 1]@);
                }
            } else {
                assert(nv[i] == old_v[i - 1] && nv[j] == old_v[j - 1]);
            }
        }
        assert forall|n: Seq<char>| holds_name(nv, n) <==> (holds_name(old_v, n) || n == s@) by {
            if holds_name(nv, n) {
                let k = choose|k: int| 0 <= k < nv.len() && #[trigger] nv[k]@ == n;
                if k < p {
                    assert(old_v[k]@ == n);
                } else if k > p {
                    assert(old_v[k - 1]@ == n);
                }
            }
            if holds_name(old_v, n) {
                let k = choose|k: int| 0 <= k < old_v.len() && #[trigger] old_v[k]@ == n;
                if k < p {
                    assert(nv[k]@ == n);
                } else {
                    assert(nv[k + 1]@ == n);
                }
            }
            if n == s@ {
                assert(nv[p as int]@ == n);
            }
        }
    }
}

// ---------------------------------------------------------------------------
// Latest step per name
// ---------------------------------------------------------------------------

pub open spec fn names_step(steps: Seq<RunStep>, n: Seq<char>) -> bool {
    exists|i: int| 0 <= i < steps.len() && #[trigger] steps[i].name@ == n
}

/// The counting step for name `n`, if any step has that name.
pub open spec fn latest_for(steps: Seq<RunStep>, n: Seq<char>) -> Option<RunStep> {
    if exists|i: int| #[trigger] is_latest(steps, i) && steps[i].name@ == n {
        Some(steps[choose|i: int| #[trigger] is_latest(steps, i) && steps[i].name@ == n])
    } else {
        None
    }
}

pub proof fn lemma_latest_unique(steps: Seq<RunStep>, i: int, j: int)
    requires
        is_latest(steps, i),
        is_latest(steps, j),
        steps[i].name@ == steps[j].name@,
    ensures
        i == j,
{
    assert(steps[j].name@ == steps[i].name@);
}

/// Index of the counting step named `name` (the first of its highest
/// attempts), or `None` when no step has that name.
pub fn latest_index(steps: &[RunStep], name: &String) -> (r: Option<usize>)
    ensures
        r matches Some(i) ==> is_latest(steps@, i as int) && steps@[i as int].name@ == name@,
        r is None ==> !names_step(steps@, name@),
        r is Some <==> latest_for(steps@, name@) is Some,
        r matches Some(i) ==> latest_for(steps@, name@) == Some(steps@[i as int]),
{
    let mut best: Option<usize> = None;
    let mut j: usize = 0;
    while j < steps.len()
        invariant
            j <= steps@.len(),
            best is None ==> forall|k: int| 0 <= k < j ==> #[trigger] steps@[k].name@ != name@,
            best matches Some(b) ==> {
                &&& b < j
                &&& steps@[b as int].name@ == name@
                &&& forall|k: int|
                    0 <= k < j && #[trigger] steps@[k].name@ == name@ ==> (steps@[k].attempt
                        < steps@[b as int].attempt || (steps@[k].attempt == steps@[b as int].attempt
                        && b <= k))
            },
        decreases steps@.len() - j,
    {
        if steps[j].name == *name {
            match best {
                None => {
                    best = Some(j);
                },
                Some(b) => {
                    if steps[j].attempt > steps[b].attempt {
                        best = Some(j);
                    }
                },
            }
        }
        j = j + 1;
    }
    match best {
        None => {
            proof {
                if exists|i: int| #[trigger] is_latest(steps@, i) && steps@[i].name@ == name@ {
                    let i = choose|i: int| #[trigger] is_latest(steps@, i) && steps@[i].name@ == name@;
                    assert(steps@[i].name@ == name@);
                }
            }
            None
        },
        Some(b) => {
            proof {
                assert(is_latest(steps@, b as int));
                let i = choose|i: int| #[trigger] is_latest(steps@, i) && steps@[i].name@ == name@;
                lemma_latest_unique(steps@, i, b as int);
            }
            Some(b)
        },
    }
}

// ---------------------------------------------------------------------------
// Step diff
// ---------------------------------------------------------------------------

/// One step name compared across two runs of the same test.
#[derive(Debug, Clone)]
pub struct StepDiffRow {
    pub name: String,
    pub a_status: Option<Result>,
    pub b_status: Option<Result>,
    /// 0 = step did not exist on this side.
    pub a_attempt: i64,
    pub b_attempt: i64,
    pub differs: bool,
}

pub open spec fn status_of(s: Option<RunStep>) -> Option<Result> {
    match s {
        Some(x) => Some(x.result),
        None => None,
    }
}

pub open spec fn attempt_of(s: Option<RunStep>) -> i64 {
    match s {
        Some(x) => x.attempt,
        None => 0,
    }
}

/// The row for step name `n`.
pub open spec fn diff_row_matches(row: StepDiffRow, a: Seq<RunStep>, b: Seq<RunStep>) -> bool {
    let n = row.name@;
    &&& row.a_status == status_of(latest_for(a, n))
    &&& row.b_status == status_of(latest_for(b, n))
    &&& row.a_attempt == attempt_of(latest_for(a, n))
    &&& row.b_attempt == attempt_of(latest_for(b, n))
    &&& row.differs == (row.a_status != row.b_status)
}

pub open spec fn rows_sorted(rows: Seq<StepDiffRow>) -> bool {
    forall|i: int, j: int| 0 <= i < j < rows.len() ==> seq_lt(#[trigger] rows[i].name@, #[trigger] rows[j].name@)
}

/// Some step among the first `i` has name `n`.
pub open spec fn names_step_before(steps: Seq<RunStep>, i: int, n: Seq<char>) -> bool {
    exists|k: int| 0 <= k < i && #[trigger] steps[k].name@ == n
}

fn collect_step_names(names: &mut Vec<String>, steps: &[RunStep])
    requires
        strictly_sorted(old(names)@),
    ensures
        strictly_sorted(final(names)@),
        forall|n: Seq<char>| #![trigger holds_name(final(names)@, n)] holds_name(final(names)@, n) <==> (holds_name(old(names)@, n) || names_step(steps@, n)),
{
    let ghost start = names@;
    let mut i: usize = 0;
    while i < steps.len()
        invariant
            i <= steps@.len(),
            strictly_sorted(names@),
            forall|n: Seq<char>| #![trigger holds_name(names@, n)] holds_name(names@, n) <==> (holds_name(start, n) || names_step_before(steps@, i as int, n)),
        decreases steps@.len() - i,
    {
        let ghost prev = names@;
        insert_name(names, &steps[i].name);
        proof {
            assert forall|n: Seq<char>| #![trigger holds_name(names@, n)] holds_name(names@, n) <==> (holds_name(start, n) || names_step_before(steps@, i + 1, n)) by {
                assert(holds_name(names@, n) <==> (holds_name(prev, n) || n == steps@[i as int].name@));
                assert(holds_name(prev, n) <==> (holds_name(start, n) || names_step_before(steps@, i as int, n)));
                if names_step_before(steps@, i + 1, n) {
                    let k = choose|k: int| 0 <= k < i + 1 && #[trigger] steps@[k].name@ == n;
                    if k < i {
                        assert(names_step_before(steps@, i as int, n));
                    }
                }
                if n == steps@[i as int].name@ {
                    assert(names_step_before(steps@, i + 1, n));
                }
                if names_step_before(steps@, i as int, n) {
                    let k = choose|k: int| 0 <= k < i && #[trigger] steps@[k].name@ == n;
                    assert(names_step_before(steps@, i + 1, n));
                }
            }
        }
        i = i + 1;
    }
    proof {
        assert forall|n: Seq<char>| names_step_before(steps@, i as int, n) == names_step(steps@, n) by {}
    }
}

/// Merge step rows from two runs of the same logical test, comparing the
/// latest attempt of each step name. Returns one row per distinct step name,
/// in name order.
pub fn step_diff_rows(a: &[RunStep], b: &[RunStep]) -> (rows: Vec<StepDiffRow>)
    ensures
        rows_sorted(rows@),
        forall|k: int| 0 <= k < rows@.len() ==> diff_row_matches(#[trigger] rows@[k], a@, b@),
        forall|n: Seq<char>| (names_step(a@, n) || names_step(b@, n)) <==> exists|k: int| 0 <= k < rows@.len() && #[trigger] rows@[k].name@ == n,
{
    let mut names: Vec<String> = Vec::new();
    assert(forall|n: Seq<char>| !holds_name(names@, n));
    collect_step_names(&mut names, a);
    collect_step_names(&mut names, b);
    assert(forall|n: Seq<char>| #![trigger holds_name(names@, n)] holds_name(names@, n) <==> (names_step(a@, n) || names_step(b@, n)));
    let mut rows: Vec<StepDiffRow> = Vec::new();
    let mut k: usize = 0;
    while k < names.len()
        invariant
            k <= names@.len(),
            rows@.len() == k,
            strictly_sorted(names@),
            forall|n: Seq<char>| #![trigger holds_name(names@, n)] holds_name(names@, n) <==> (names_step(a@, n) || names_step(b@, n)),
            forall|j: int| 0 <= j < k ==> #[trigger] rows@[j].name@ == names@[j]@,
            forall|j: int| 0 <= j < k ==> diff_row_matches(#[trigger] rows@[j], a@, b@),
        decreases names@.len() - k,
    {
        let name = &names[k];
        let ia = latest_index(a, name);
        let ib = latest_index(b, name);
        let (a_status, a_attempt) = match ia {
            Some(i) => (Some(a[i].result), a[i].attempt),
            None => (None, 0),
        };
        let (b_status, b_attempt) = match ib {
            Some(i) => (Some(b[i].result), b[i].attempt),
            None => (None, 0),
        };
        let differs = a_status != b_status;
        let row = StepDiffRow { name: name.clone(), a_status, b_status, a_attempt, b_attempt, differs };
        rows.push(row);
        k = k + 1;
    }
    proof {
        assert forall|i: int, j: int| 0 <= i < j < rows@.len() implies seq_lt(#[trigger] rows@[i].name@, #[trigger] rows@[j].name@) by {
            assert(rows@[i].name@ == names@[i]@);
            assert(rows@[j].name@ == names@[j]@);
        }
        assert forall|n: Seq<char>| (names_step(a@, n) || names_step(b@, n)) <==> exists|k: int| 0 <= k < rows@.len() && #[trigger] rows@[k].name@ == n by {
            if names_step(a@, n) || names_step(b@, n) {
                assert(holds_name(names@, n));
                let j = choose|j: int| 0 <= j < names@.len() && #[trigger] names@[j]@ == n;
                assert(rows@[j].name@ == n);
            }
            if exists|k: int| 0 <= k < rows@.len() && #[trigger] rows@[k].name@ == n {
                let j = choose|j: int| 0 <= j < rows@.len() && #[trigger] rows@[j].name@ == n;
                assert(names@[j]@ == n);
                assert(holds_name(names@, n));
            }
        }
    }
    rows
}

// ---------------------------------------------------------------------------
// Test-level comparison of two runs
// ---------------------------------------------------------------------------

/// A test of one run with its rollup.
#[derive(Debug, Clone)]
pub struct TestRollup {
    pub name: String,
    pub rollup: Option<Result>,
}

/// One test name compared across two runs.
#[derive(Debug, Clone)]
pub struct CompareRow {
    pub test_name: String,
    /// The name percent-encoded, for the per-test diff link.
    pub test_name_encoded: String,
    pub a_status: Option<Result>,
    pub b_status: Option<Result>,
    pub differs: bool,
}

/// The rollup recorded for test `n` (the last entry of that name wins), or
/// `None` when the run has no such test or it has no steps.
pub open spec fn rollup_named(list: Seq<TestRollup>, n: Seq<char>) -> Option<Result>
    decreases list.len(),
{
    if list.len() == 0 {
        None
    } else if list.last().name@ == n {
        list.last().rollup
    } else {
        rollup_named(list.drop_last(), n)
    }
}

pub open spec fn names_test(list: Seq<TestRollup>, n: Seq<char>) -> bool {
    exists|i: int| 0 <= i < list.len() && #[trigger] list[i].name@ == n
}

/// Bytes left as they are by percent-encoding: ASCII letters, digits and
/// `-`, `.`, `_`, `~`.
pub open spec fn url_unreserved(b: u8) -> bool {
    (48 <= b && b <= 57) || (65 <= b && b <= 90) || (97 <= b && b <= 122) || b == 45 || b == 46 || b
        == 95 || b == 126
}

/// Uppercase hex digit of a value below sixteen.
pub open spec fn hex_upper(d: nat) -> char {
    if d < 10 {
        crate::text::digit_char(d)
    } else if d == 10 {
        'A'
    } else if d == 11 {
        'B'
    } else if d == 12 {
        'C'
    } else if d == 13 {
        'D'
    } else if d == 14 {
        'E'
    } else {
        'F'
    }
}

/// Percent-encoding of a byte string: unreserved bytes as themselves, every
/// other byte as `%` and two uppercase hex digits.
pub open spec fn percent_encode(bytes: Seq<u8>) -> Seq<char>
    decreases bytes.len(),
{
    if bytes.len() == 0 {
        Seq::empty()
    } else {
        let b = bytes.last();
        let head = percent_encode(bytes.drop_last());
        if url_unreserved(b) {
            head.push(b as char)
        } else {
            head.push('%').push(hex_upper((b / 16) as nat)).push(hex_upper((b % 16) as nat))
        }
    }
}

/// Calls `urlencoding::encode`, whose source keeps the bytes
/// `0-9A-Za-z-._~` of the UTF-8 encoding and writes every other byte as `%`
/// followed by two uppercase hex digits.
#[verifier::external_body]
fn url_encode(s: &str) -> (r: String)
    ensures
        r@ == percent_encode(vstd::utf8::encode_utf8(s@)),
{
    urlencoding::encode(s).into_owned()
}

pub open spec fn compare_row_matches(row: CompareRow, a: Seq<TestRollup>, b: Seq<TestRollup>) -> bool {
    let n = row.test_name@;
    &&& row.test_name_encoded@ == percent_encode(vstd::utf8::encode_utf8(n))
    &&& row.a_status == rollup_named(a, n)
    &&& row.b_status == rollup_named(b, n)
    &&& row.differs == (row.a_status != row.b_status)
}

pub open spec fn compare_rows_sorted(rows: Seq<CompareRow>) -> bool {
    forall|i: int, j: int| 0 <= i < j < rows.len() ==> seq_lt(#[trigger] rows[i].test_name@, #[trigger] rows[j].test_name@)
}

fn rollup_for(list: &[TestRollup], name: &String) -> (r: Option<Result>)
    ensures
        r == rollup_named(list@, name@),
{
    let mut i: usize = list.len();
    assert(list@.take(i as int) =~= list@);
    while i > 0
        invariant
            i <= list@.len(),
            rollup_named(list@, name@) == rollup_named(list@.take(i as int), name@),
        decreases i,
    {
        assert(list@.take(i as int).drop_last() =~= list@.take(i - 1));
        assert(list@.take(i as int).last() == list@[i - 1]);
        if list[i - 1].name == *name {
            return list[i - 1].rollup;
        }
        i = i - 1;
    }
    assert(list@.take(0) =~= Seq::<TestRollup>::empty());
    None
}

fn collect_test_names(names: &mut Vec<String>, list: &[TestRollup])
    requires
        strictly_sorted(old(names)@),
    ensures
        strictly_sorted(final(names)@),
        forall|n: Seq<char>| #![trigger holds_name(final(names)@, n)] holds_name(final(names)@, n) <==> (holds_name(old(names)@, n) || names_test(list@, n)),
{
    let ghost start = names@;
    let mut i: usize = 0;
    while i < list.len()
        invariant
            i <= list@.len(),
            strictly_sorted(names@),
            forall|n: Seq<char>| #![trigger holds_name(names@, n)] holds_name(names@, n) <==> (holds_name(start, n) || names_test(list@.take(i as int), n)),
        decreases list@.len() - i,
    {
        let ghost prev = names@;
        insert_name(names, &list[i].name);
        proof {
            assert forall|n: Seq<char>| #![trigger holds_name(names@, n)] holds_name(names@, n) <==> (holds_name(start, n) || names_test(list@.take(i + 1), n)) by {
                assert(holds_name(names@, n) <==> (holds_name(prev, n) || n == list@[i as int].name@));
                assert(holds_name(prev, n) <==> (holds_name(start, n) || names_test(list@.take(i as int), n)));
                if names_test(list@.take(i + 1), n) {
                    let k = choose|k: int| 0 <= k < i + 1 && #[trigger] list@.take(i + 1)[k].name@ == n;
                    if k < i {
                        assert(list@.take(i as int)[k] == list@.take(i + 1)[k]);
                        assert(names_test(list@.take(i as int), n));
                    }
                }
                if n == list@[i as int].name@ {
                    assert(list@.take(i + 1)[i as int].name@ == n);
                    assert(names_test(list@.take(i + 1), n));
                }
                if names_test(list@.take(i as int), n) {
                    let k = choose|k: int| 0 <= k < i && #[trigger] list@.take(i as int)[k].name@ == n;
                    assert(list@.take(i + 1)[k] == list@.take(i as int)[k]);
                    assert(names_test(list@.take(i + 1), n));
                }
            }
        }
        i = i + 1;
    }
    assert(list@.take(i as int) =~= list@);
}

/// One row per test name found in either run, in name order, with each
/// side's rollup.
pub fn compare_rows(a: &[TestRollup], b: &[TestRollup]) -> (rows: Vec<CompareRow>)
    ensures
        compare_rows_sorted(rows@),
        forall|k: int| 0 <= k < rows@.len() ==> compare_row_matches(#[trigger] rows@[k], a@, b@),
        forall|n: Seq<char>| (names_test(a@, n) || names_test(b@, n)) <==> exists|k: int| 0 <= k < rows@.len() && #[trigger] rows@[k].test_name@ == n,
{
    let mut names: Vec<String> = Vec::new();
    assert(forall|n: Seq<char>| !holds_name(names@, n));
    collect_test_names(&mut names, a);
    collect_test_names(&mut names, b);
    assert(forall|n: Seq<char>| #![trigger holds_name(names@, n)] holds_name(names@, n) <==> (names_test(a@, n) || names_test(b@, n)));
    let mut rows: Vec<CompareRow> = Vec::new();
    let mut k: usize = 0;
    while k < names.len()
        invariant
            k <= names@.len(),
            rows@.len() == k,
            strictly_sorted(names@),
            forall|n: Seq<char>| #![trigger holds_name(names@, n)] holds_name(names@, n) <==> (names_test(a@, n) || names_test(b@, n)),
            forall|j: int| 0 <= j < k ==> #[trigger] rows@[j].test_name@ == names@[j]@,
            forall|j: int| 0 <= j < k ==> compare_row_matches(#[trigger] rows@[j], a@, b@),
        decreases names@.len() - k,
    {
        let name = &names[k];
        let a_status = rollup_for(a, name);
        let b_status = rollup_for(b, name);
        let row = CompareRow {
            test_name: name.clone(),
            test_name_encoded: url_encode(name.as_str()),
            a_status,
            b_status,
            differs: a_status != b_status,
        };
        rows.push(row);
        k = k + 1;
    }
    proof {
        assert forall|i: int, j: int| 0 <= i < j < rows@.len() implies seq_lt(#[trigger] rows@[i].test_name@, #[trigger] rows@[j].test_name@) by {
            assert(rows@[i].test_name@ == names@[i]@);
            assert(rows@[j].test_name@ == names@[j]@);
        }
        assert forall|n: Seq<char>| (names_test(a@, n) || names_test(b@, n)) <==> exists|k: int| 0 <= k < rows@.len() && #[trigger] rows@[k].test_name@ == n by {
            if names_test(a@, n) || names_test(b@, n) {
                assert(holds_name(names@, n));
                let j = choose|j: int| 0 <= j < names@.len() && #[trigger] names@[j]@ == n;
                assert(rows@[j].test_name@ == n);
            }
            if exists|k: int| 0 <= k < rows@.len() && #[trigger] rows@[k].test_name@ == n {
                let j = choose|j: int| 0 <= j < rows@.len() && #[trigger] rows@[j].test_name@ == n;
                assert(names@[j]@ == n);
                assert(holds_name(names@, n));
            }
        }
    }
    rows
}

} // verus!
