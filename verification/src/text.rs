//! Character-level text utilities shared by the parsers and renderers.
//!
//! Every function here works on the `Seq<char>` view of a string, so the
//! renderers can state their output as plain concatenations.
use vstd::prelude::*;

verus! {

/// Appends one character to a string (std `String::push`).
#[verifier::external_body]
pub fn push_char(s: &mut String, c: char)
    ensures
        final(s)@ == old(s)@.push(c),
{
    s.push(c);
}

/// Appends a string slice.
pub fn push_str(s: &mut String, t: &str)
    ensures
        final(s)@ == old(s)@ + t@,
{
    s.append(t);
}

/// A fresh string holding the characters of `t`.
pub fn string_from(t: &str) -> (r: String)
    ensures
        r@ == t@,
{
    String::from_str(t)
}

/// The characters of a string slice, in order.
pub fn to_chars(s: &str) -> (v: Vec<char>)
    ensures
        v@ == s@,
{
    let mut v: Vec<char> = Vec::new();
    for c in it: s.chars()
        invariant
            it.seq() == s@,
            v@ == it.seq().take(it.index() as int),
    {
        v.push(c);
    }
    v
}

/// Character-wise equality of two string slices.
pub fn str_eq(a: &str, b: &str) -> (r: bool)
    ensures
        r == (a@ == b@),
{
    let x = to_chars(a);
    let y = to_chars(b);
    if x.len() != y.len() {
        return false;
    }
    let mut i: usize = 0;
    while i < x.len()
        invariant
            x@ == a@,
            y@ == b@,
            x.len() == y.len(),
            i <= x.len(),
            forall|k: int| 0 <= k < i ==> x@[k] == y@[k],
        decreases x.len() - i,
    {
        if x[i] != y[i] {
            return false;
        }
        i = i + 1;
    }
    assert(x@ =~= y@);
    true
}

// ---------------------------------------------------------------------------
// Decimal rendering of integers
// ---------------------------------------------------------------------------

/// The ASCII digit for a value below ten.
pub open spec fn digit_char(d: nat) -> char {
    if d == 0 { '0' }
    else if d == 1 { '1' }
    else if d == 2 { '2' }
    else if d == 3 { '3' }
    else if d == 4 { '4' }
    else if d == 5 { '5' }
    else if d == 6 { '6' }
    else if d == 7 { '7' }
    else if d == 8 { '8' }
    else { '9' }
}

/// Decimal digits of a natural number, most significant first, no padding.
pub open spec fn dec_nat(n: nat) -> Seq<char>
    decreases n,
{
    if n < 10 {
        seq![digit_char(n)]
    } else {
        dec_nat(n / 10).push(digit_char(n % 10))
    }
}

/// Decimal rendering of an integer, with a leading `-` when negative
/// (what `format!("{}", n)` prints).
pub open spec fn dec_int(n: int) -> Seq<char> {
    if n < 0 {
        seq!['-'] + dec_nat((-n) as nat)
    } else {
        dec_nat(n as nat)
    }
}

fn digit(d: u64) -> (c: char)
    requires
        d < 10,
    ensures
        c == digit_char(d as nat),
{
    if d == 0 { '0' }
    else if d == 1 { '1' }
    else if d == 2 { '2' }
    else if d == 3 { '3' }
    else if d == 4 { '4' }
    else if d == 5 { '5' }
    else if d == 6 { '6' }
    else if d == 7 { '7' }
    else if d == 8 { '8' }
    else { '9' }
}

/// Appends the decimal digits of `n`.
pub fn push_u64(s: &mut String, n: u64)
    ensures
        final(s)@ == old(s)@ + dec_nat(n as nat),
    decreases n,
{
    if n >= 10 {
        push_u64(s, n / 10);
        push_char(s, digit(n % 10));
        assert(dec_nat(n as nat) == dec_nat((n / 10) as nat).push(digit_char((n % 10) as nat)));
    } else {
        push_char(s, digit(n));
    }
}

/// Appends the decimal rendering of `n` (with a sign when negative).
pub fn push_i64(s: &mut String, n: i64)
    ensures
        final(s)@ == old(s)@ + dec_int(n as int),
{
    if n < 0 {
        push_char(s, '-');
        let m: i128 = 0 - (n as i128);
        let u: u64 = m as u64;
        push_u64(s, u);
    } else {
        push_u64(s, n as u64);
    }
}

/// Appends the decimal rendering of a `usize`.
pub fn push_usize(s: &mut String, n: usize)
    ensures
        final(s)@ == old(s)@ + dec_nat(n as nat),
{
    push_u64(s, n as u64);
}

// ---------------------------------------------------------------------------
// Case folding, trimming, line handling
// ---------------------------------------------------------------------------

/// ASCII lowercase of one character; other characters are kept.
pub open spec fn lower_char(c: char) -> char {
    if 'A' <= c && c <= 'Z' {
        (((c as u32) as u8) + 32) as u8 as char
    } else {
        c
    }
}

/// `str::to_ascii_lowercase` on the character view.
pub open spec fn ascii_lower(s: Seq<char>) -> Seq<char> {
    s.map_values(|c: char| lower_char(c))
}

fn lower_char_exec(c: char) -> (r: char)
    ensures
        r == lower_char(c),
{
    if 'A' <= c && c <= 'Z' {
        let b: u8 = (c as u32 as u8) + 32;
        b as char
    } else {
        c
    }
}

/// ASCII-lowercased copy of `s`.
pub fn to_ascii_lowercase(s: &str) -> (r: String)
    ensures
        r@ == ascii_lower(s@),
{
    let v = to_chars(s);
    let mut r = String::new();
    let mut i: usize = 0;
    while i < v.len()
        invariant
            v@ == s@,
            i <= v.len(),
            r@ == ascii_lower(s@.take(i as int)),
        decreases v.len() - i,
    {
        push_char(&mut r, lower_char_exec(v[i]));
        assert(s@.take(i + 1) == s@.take(i as int).push(v@[i as int]));
        assert(ascii_lower(s@.take(i + 1)) =~= ascii_lower(s@.take(i as int)).push(lower_char(v@[i as int])));
        i = i + 1;
    }
    assert(s@.take(i as int) =~= s@);
    r
}

/// The Unicode `White_Space` property, as `char::is_whitespace` tests it.
pub open spec fn is_white(c: char) -> bool {
    let u = c as u32;
    ||| 0x09 <= u && u <= 0x0D
    ||| u == 0x20
    ||| u == 0x85
    ||| u == 0xA0
    ||| u == 0x1680
    ||| 0x2000 <= u && u <= 0x200A
    ||| u == 0x2028
    ||| u == 0x2029
    ||| u == 0x202F
    ||| u == 0x205F
    ||| u == 0x3000
}

pub fn is_white_exec(c: char) -> (r: bool)
    ensures
        r == is_white(c),
{
    let u: u32 = c as u32;
    (0x09 <= u && u <= 0x0D) || u == 0x20 || u == 0x85 || u == 0xA0 || u == 0x1680 || (0x2000
        <= u && u <= 0x200A) || u == 0x2028 || u == 0x2029 || u == 0x202F || u == 0x205F || u
        == 0x3000
}

/// Index of the first non-whitespace character (the length if none).
pub open spec fn lead_white(s: Seq<char>) -> nat
    decreases s.len(),
{
    if s.len() > 0 && is_white(s[0]) {
        1 + lead_white(s.drop_first())
    } else {
        0
    }
}

/// Number of whitespace characters at the end.
pub open spec fn trail_white(s: Seq<char>) -> nat
    decreases s.len(),
{
    if s.len() > 0 && is_white(s.last()) {
        1 + trail_white(s.drop_last())
    } else {
        0
    }
}

/// `str::trim`: leading and trailing whitespace removed.
pub open spec fn trimmed(s: Seq<char>) -> Seq<char> {
    let a = s.skip(lead_white(s) as int);
    a.take(a.len() - trail_white(a))
}

proof fn lemma_lead_white(s: Seq<char>, i: int)
    requires
        0 <= i <= s.len(),
        forall|k: int| 0 <= k < i ==> is_white(#[trigger] s[k]),
        i == s.len() || !is_white(s[i]),
    ensures
        lead_white(s) == i,
    decreases i,
{
    if i > 0 {
        assert(s.len() > 0 && is_white(s[0]));
        let t = s.drop_first();
        assert forall|k: int| 0 <= k < i - 1 implies is_white(#[trigger] t[k]) by {
            assert(t[k] == s[k + 1]);
        }
        if i - 1 < t.len() {
            assert(t[i - 1] == s[i]);
        }
        lemma_lead_white(t, i - 1);
    }
}

proof fn lemma_trail_white(s: Seq<char>, j: int)
    requires
        0 <= j <= s.len(),
        forall|k: int| j <= k < s.len() ==> is_white(#[trigger] s[k]),
        j == 0 || !is_white(s[j - 1]),
    ensures
        trail_white(s) == s.len() - j,
    decreases s.len() - j,
{
    if j < s.len() {
        assert(is_white(s.last()));
        let t = s.drop_last();
        assert forall|k: int| j <= k < t.len() implies is_white(#[trigger] t[k]) by {
            assert(t[k] == s[k]);
        }
        if j > 0 {
            assert(t[j - 1] == s[j - 1]);
        }
        lemma_trail_white(t, j);
    } else {
        if s.len() > 0 {
            assert(s.last() == s[j - 1]);
        }
    }
}

/// `str::trim`: a copy without leading and trailing whitespace.
pub fn trim(s: &str) -> (r: String)
    ensures
        r@ == trimmed(s@),
{
    let v = to_chars(s);
    let n = v.len();
    let mut i: usize = 0;
    while i < n && is_white_exec(v[i])
        invariant
            v@ == s@,
            n == v.len(),
            i <= n,
            forall|k: int| 0 <= k < i ==> is_white(#[trigger] v@[k]),
        decreases n - i,
    {
        i = i + 1;
    }
    proof {
        lemma_lead_white(s@, i as int);
    }
    let mut j: usize = n;
    while j > i && is_white_exec(v[j - 1])
        invariant
            v@ == s@,
            n == v.len(),
            i <= j <= n,
            forall|k: int| j <= k < n ==> is_white(#[trigger] v@[k]),
        decreases j,
    {
        j = j - 1;
    }
    let ghost a = s@.skip(i as int);
    proof {
        assert forall|k: int| j - i <= k < a.len() implies is_white(#[trigger] a[k]) by {
            assert(a[k] == v@[k + i]);
        }
        if j > i {
            assert(a[j - i - 1] == v@[j - 1]);
        }
        lemma_trail_white(a, j - i);
    }
    let mut r = String::new();
    let mut k: usize = i;
    while k < j
        invariant
            v@ == s@,
            n == v.len(),
            i <= k <= j <= n,
            r@ == s@.subrange(i as int, k as int),
        decreases j - k,
    {
        push_char(&mut r, v[k]);
        assert(s@.subrange(i as int, k + 1) == s@.subrange(i as int, k as int).push(v@[k as int]));
        k = k + 1;
    }
    assert(r@ =~= trimmed(s@));
    r
}

/// Every newline replaced by a space (`s.replace('\n', " ")`).
pub open spec fn flat_char(c: char) -> char {
    if c == '\n' { ' ' } else { c }
}

pub open spec fn one_line(s: Seq<char>) -> Seq<char> {
    s.map_values(|c: char| flat_char(c))
}

pub fn flatten_newlines(s: &str) -> (r: String)
    ensures
        r@ == one_line(s@),
{
    let v = to_chars(s);
    let mut r = String::new();
    let mut i: usize = 0;
    while i < v.len()
        invariant
            v@ == s@,
            i <= v.len(),
            r@ == one_line(s@.take(i as int)),
        decreases v.len() - i,
    {
        let c = v[i];
        let d = if c == '\n' { ' ' } else { c };
        push_char(&mut r, d);
        assert(s@.take(i + 1) == s@.take(i as int).push(c));
        assert(one_line(s@.take(i + 1)) =~= one_line(s@.take(i as int)).push(flat_char(c)));
        i = i + 1;
    }
    assert(s@.take(i as int) =~= s@);
    r
}

/// `s.replace('\n', rep)`: every newline replaced by `rep`.
pub open spec fn replace_newlines(s: Seq<char>, rep: Seq<char>) -> Seq<char>
    decreases s.len(),
{
    if s.len() == 0 {
        Seq::empty()
    } else {
        let head = replace_newlines(s.drop_last(), rep);
        if s.last() == '\n' {
            head + rep
        } else {
            head.push(s.last())
        }
    }
}

pub fn push_replacing_newlines(out: &mut String, s: &str, rep: &str)
    ensures
        final(out)@ == old(out)@ + replace_newlines(s@, rep@),
{
    let ghost start = out@;
    let v = to_chars(s);
    let mut i: usize = 0;
    while i < v.len()
        invariant
            v@ == s@,
            i <= v.len(),
            out@ == start + replace_newlines(s@.take(i as int), rep@),
        decreases v.len() - i,
    {
        let c = v[i];
        if c == '\n' {
            push_str(out, rep);
        } else {
            push_char(out, c);
        }
        assert(s@.take(i + 1).drop_last() == s@.take(i as int));
        assert(s@.take(i + 1).last() == c);
        assert(out@ =~= start + replace_newlines(s@.take(i + 1), rep@));
        i = i + 1;
    }
    assert(s@.take(i as int) =~= s@);
}

// ---------------------------------------------------------------------------
// Lines
// ---------------------------------------------------------------------------

/// A line as `str::lines` yields it: without its `\n`, and without a `\r`
/// directly before that `\n`.
pub open spec fn strip_cr(line: Seq<char>) -> Seq<char> {
    if line.len() > 0 && line.last() == '\r' {
        line.drop_last()
    } else {
        line
    }
}

/// Position of the first newline at or after `from`, or the length.
pub open spec fn next_newline(s: Seq<char>, from: int) -> int
    decreases s.len() - from,
{
    if from >= s.len() {
        s.len() as int
    } else if s[from] == '\n' {
        from
    } else {
        next_newline(s, from + 1)
    }
}

/// The lines of `s` from position `from` on (`str::lines`).
pub open spec fn lines_from(s: Seq<char>, from: int) -> Seq<Seq<char>>
    decreases s.len() - from,
{
    if from >= s.len() {
        Seq::empty()
    } else {
        let e = next_newline(s, from);
        if e < s.len() {
            proof {
                lemma_next_newline_bounds(s, from);
            }
            seq![strip_cr(s.subrange(from, e))] + lines_from(s, e + 1)
        } else {
            seq![s.subrange(from, e)]
        }
    }
}

/// `str::lines`.
pub open spec fn lines(s: Seq<char>) -> Seq<Seq<char>> {
    lines_from(s, 0)
}

pub proof fn lemma_next_newline_bounds(s: Seq<char>, from: int)
    ensures
        from <= next_newline(s, from) || from >= s.len(),
        next_newline(s, from) <= s.len() || from >= s.len(),
    decreases s.len() - from,
{
    if from < s.len() && s[from] != '\n' {
        lemma_next_newline_bounds(s, from + 1);
    }
}

proof fn lemma_next_newline(s: Seq<char>, from: int, e: int)
    requires
        0 <= from <= e <= s.len(),
        forall|k: int| from <= k < e ==> s[k] != '\n',
        e == s.len() || s[e] == '\n',
    ensures
        next_newline(s, from) == e,
    decreases e - from,
{
    if from < e {
        lemma_next_newline(s, from + 1, e);
    }
}

/// `str::lines` as a vector of strings.
pub fn split_lines(s: &str) -> (r: Vec<String>)
    ensures
        r@.len() == lines(s@).len(),
        forall|i: int| 0 <= i < r@.len() ==> #[trigger] r@[i]@ == lines(s@)[i],
{
    let v = to_chars(s);
    let n = v.len();
    let mut out: Vec<String> = Vec::new();
    let mut from: usize = 0;
    while from < n
        invariant
            v@ == s@,
            n == v.len(),
            from <= n,
            lines(s@) == out@.map_values(|x: String| x@) + lines_from(s@, from as int),
        decreases n - from,
    {
        let mut e: usize = from;
        while e < n && v[e] != '\n'
            invariant
                v@ == s@,
                n == v.len(),
                from <= e <= n,
                forall|k: int| from <= k < e ==> v@[k] != '\n',
            decreases n - e,
        {
            e = e + 1;
        }
        proof {
            lemma_next_newline(s@, from as int, e as int);
        }
        let mut end: usize = e;
        if e < n && e > from && v[e - 1] == '\r' {
            end = e - 1;
        }
        let mut line = String::new();
        let mut k: usize = from;
        while k < end
            invariant
                v@ == s@,
                n == v.len(),
                from <= k <= end <= n,
                line@ == s@.subrange(from as int, k as int),
            decreases end - k,
        {
            push_char(&mut line, v[k]);
            assert(s@.subrange(from as int, k + 1) == s@.subrange(from as int, k as int).push(v@[k as int]));
            k = k + 1;
        }
        let ghost prev = out@;
        proof {
            if e < n {
                assert(line@ =~= strip_cr(s@.subrange(from as int, e as int)));
                assert(lines_from(s@, from as int) == seq![line@] + lines_from(s@, e + 1));
            } else {
                assert(lines_from(s@, from as int) == seq![line@]);
                assert(lines_from(s@, (e + 1) as int) == Seq::<Seq<char>>::empty());
            }
        }
        out.push(line);
        assert(out@.map_values(|x: String| x@) =~= prev.map_values(|x: String| x@).push(line@));
        if e < n {
            from = e + 1;
        } else {
            from = n;
            assert(lines_from(s@, n as int) == Seq::<Seq<char>>::empty());
        }
        assert(lines(s@) =~= out@.map_values(|x: String| x@) + lines_from(s@, from as int));
    }
    assert(lines_from(s@, from as int) == Seq::<Seq<char>>::empty());
    assert(lines(s@) =~= out@.map_values(|x: String| x@));
    out
}

// ---------------------------------------------------------------------------
// Ordering of strings
// ---------------------------------------------------------------------------

/// Strict lexicographic order by code point, which is the order `str`'s
/// `Ord` gives (UTF-8 byte order agrees with code-point order).
pub open spec fn seq_lt(a: Seq<char>, b: Seq<char>) -> bool
    decreases a.len(),
{
    if a.len() == 0 {
        b.len() > 0
    } else if b.len() == 0 {
        false
    } else if a[0] < b[0] {
        true
    } else if a[0] == b[0] {
        seq_lt(a.drop_first(), b.drop_first())
    } else {
        false
    }
}

pub proof fn lemma_seq_lt_irreflexive(a: Seq<char>)
    ensures
        !seq_lt(a, a),
    decreases a.len(),
{
    if a.len() > 0 {
        lemma_seq_lt_irreflexive(a.drop_first());
    }
}

pub proof fn lemma_seq_lt_transitive(a: Seq<char>, b: Seq<char>, c: Seq<char>)
    requires
        seq_lt(a, b),
        seq_lt(b, c),
    ensures
        seq_lt(a, c),
    decreases a.len(),
{
    if a.len() > 0 && b.len() > 0 && c.len() > 0 {
        if a[0] == b[0] && b[0] == c[0] {
            lemma_seq_lt_transitive(a.drop_first(), b.drop_first(), c.drop_first());
        }
    }
}

pub proof fn lemma_seq_lt_total(a: Seq<char>, b: Seq<char>)
    ensures
        a == b || seq_lt(a, b) || seq_lt(b, a),
    decreases a.len(),
{
    if a.len() > 0 && b.len() > 0 {
        if a[0] == b[0] {
            lemma_seq_lt_total(a.drop_first(), b.drop_first());
            if a.drop_first() == b.drop_first() {
                assert(a.len() == a.drop_first().len() + 1);
                assert(b.len() == b.drop_first().len() + 1);
                assert forall|k: int| 0 <= k < a.len() implies a[k] == b[k] by {
                    if k > 0 {
                        assert(a[k] == a.drop_first()[k - 1]);
                        assert(b[k] == b.drop_first()[k - 1]);
                    }
                }
                assert(a =~= b);
            }
        }
    } else if a.len() == 0 && b.len() == 0 {
        assert(a =~= b);
    }
}

/// `a < b` on strings.
pub fn str_lt(a: &str, b: &str) -> (r: bool)
    ensures
        r == seq_lt(a@, b@),
{
    let x = to_chars(a);
    let y = to_chars(b);
    let mut i: usize = 0;
    assert(a@.skip(0) =~= a@);
    assert(b@.skip(0) =~= b@);
    while i < x.len() && i < y.len() && x[i] == y[i]
        invariant
            x@ == a@,
            y@ == b@,
            i <= x.len(),
            i <= y.len(),
            forall|k: int| 0 <= k < i ==> x@[k] == y@[k],
            seq_lt(a@, b@) == seq_lt(a@.skip(i as int), b@.skip(i as int)),
        decreases x.len() - i,
    {
        proof {
            let p = a@.skip(i as int);
            let q = b@.skip(i as int);
            assert(p.drop_first() =~= a@.skip(i + 1));
            assert(q.drop_first() =~= b@.skip(i + 1));
        }
        i = i + 1;
    }
    if i == x.len() {
        i < y.len()
    } else if i == y.len() {
        false
    } else {
        x[i] < y[i]
    }
}

// ---------------------------------------------------------------------------
// Concatenation over sequences
// ---------------------------------------------------------------------------

/// `f` applied to each element, the pieces concatenated in order.
pub open spec fn concat_map<A>(s: Seq<A>, f: spec_fn(A) -> Seq<char>) -> Seq<char>
    decreases s.len(),
{
    if s.len() == 0 {
        Seq::empty()
    } else {
        concat_map(s.drop_last(), f) + f(s.last())
    }
}

pub proof fn lemma_concat_map_step<A>(s: Seq<A>, i: int, f: spec_fn(A) -> Seq<char>)
    requires
        0 <= i < s.len(),
    ensures
        concat_map(s.take(i + 1), f) == concat_map(s.take(i), f) + f(s[i]),
{
    assert(s.take(i + 1).drop_last() =~= s.take(i));
}

pub proof fn lemma_concat_map_all<A>(s: Seq<A>, f: spec_fn(A) -> Seq<char>)
    ensures
        concat_map(s.take(s.len() as int), f) == concat_map(s, f),
{
    assert(s.take(s.len() as int) =~= s);
}

/// The pieces separated by `sep` (`slice::join`).
pub open spec fn join(parts: Seq<Seq<char>>, sep: Seq<char>) -> Seq<char>
    decreases parts.len(),
{
    if parts.len() == 0 {
        Seq::empty()
    } else if parts.len() == 1 {
        parts[0]
    } else {
        join(parts.drop_last(), sep) + sep + parts.last()
    }
}

/// `parts.join(sep)`.
pub fn join_strings(parts: &Vec<String>, sep: &str) -> (r: String)
    ensures
        r@ == join(parts@.map_values(|p: String| p@), sep@),
{
    let ghost views = parts@.map_values(|p: String| p@);
    let mut r = String::new();
    let mut i: usize = 0;
    while i < parts.len()
        invariant
            i <= parts@.len(),
            views == parts@.map_values(|p: String| p@),
            r@ == join(views.take(i as int), sep@),
        decreases parts@.len() - i,
    {
        if i > 0 {
            push_str(&mut r, sep);
        }
        push_str(&mut r, parts[i].as_str());
        assert(views.take(i + 1).drop_last() =~= views.take(i as int));
        if i == 0 {
            assert(views.take(1)[0] == parts@[0]@);
        }
        i = i + 1;
    }
    assert(views.take(i as int) =~= views);
    r
}

} // verus!
