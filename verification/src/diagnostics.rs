//! Type-check diagnostics: the structured diagnostic record, the closed
//! ignore-list encoding what the sandbox runtime satisfies at execution
//! time, and the parser for the type checker's one-line error format.

use vstd::prelude::*;

verus! {

use crate::text::chars_of;
use crate::text::string_from_chars;

/// A single type checking diagnostic.
pub struct Diagnostic {
    /// Human-readable error message.
    pub message: String,
    /// Line number where the error occurred (1-indexed).
    pub line: Option<usize>,
    /// Column number where the error occurred (1-indexed).
    pub column: Option<usize>,
    /// Severity level: "error" or "warning".
    pub severity: String,
    /// Numeric TypeScript diagnostic code.
    pub code: Option<u32>,
}

/// Result of a type checking operation.
pub struct CheckResult {
    /// Whether the code passed type checking.
    pub success: bool,
    /// The diagnostics found.
    pub diagnostics: Vec<Diagnostic>,
}

/// Whether a numeric diagnostic code is on the ignore-list: the codes the
/// sandbox runtime genuinely satisfies at execution time (module
/// resolution, missing ambient declarations and globals, implicit `any`,
/// dynamic access, arithmetic strictness).
pub open spec fn spec_ignored_code(code: u32) -> bool {
    ||| code == 2307
    ||| code == 2304
    ||| code == 7016
    ||| code == 2318
    ||| code == 2580
    ||| code == 2583
    ||| code == 2584
    ||| code == 2585
    ||| code == 2591
    ||| code == 2339
    ||| code == 2693
    ||| code == 7006
    ||| code == 7053
    ||| code == 7005
    ||| code == 7034
    ||| code == 18046
    ||| code == 2362
    ||| code == 2363
}

/// Whether a diagnostic is relevant: it would fail at runtime.  A
/// diagnostic without a code is always relevant.
pub open spec fn spec_is_relevant(d: Diagnostic) -> bool {
    match d.code {
        Some(code) => !spec_ignored_code(code),
        None => true,
    }
}

/// Whether a diagnostic indicates a problem the executed code would
/// actually hit, rather than TypeScript-only strictness.
pub fn is_relevant_error(diagnostic: &Diagnostic) -> (r: bool)
    ensures
        r == spec_is_relevant(*diagnostic),
{
    match diagnostic.code {
        Some(code) => !(code == 2307 || code == 2304 || code == 7016 || code == 2318 || code
            == 2580 || code == 2583 || code == 2584 || code == 2585 || code == 2591 || code
            == 2339 || code == 2693 || code == 7006 || code == 7053 || code == 7005 || code
            == 7034 || code == 18046 || code == 2362 || code == 2363),
        None => true,
    }
}

/// The diagnostics of `ds` up to index `i` that are relevant, in order.
pub open spec fn spec_relevant_prefix(ds: Seq<Diagnostic>, i: int) -> Seq<Diagnostic>
    decreases i,
{
    if i <= 0 {
        Seq::empty()
    } else {
        spec_relevant_prefix(ds, i - 1) + if spec_is_relevant(ds[i - 1]) {
            seq![ds[i - 1]]
        } else {
            Seq::empty()
        }
    }
}

/// Keep only the diagnostics that matter for execution, in order.
#[verifier::loop_isolation(false)]
pub fn filter_relevant_diagnostics(diagnostics: Vec<Diagnostic>) -> (r: Vec<Diagnostic>)
    ensures
        r@ == spec_relevant_prefix(diagnostics@, diagnostics@.len() as int),
{
    let ghost ds = diagnostics@;
    let mut rest = diagnostics;
    let mut out: Vec<Diagnostic> = Vec::new();
    while rest.len() > 0
        invariant
            rest@.len() <= ds.len(),
            rest@ =~= ds.subrange(ds.len() - rest@.len(), ds.len() as int),
            out@ == spec_relevant_prefix(ds, ds.len() - rest@.len()),
        decreases rest@.len(),
    {
        let ghost i = ds.len() - rest@.len();
        let d = rest.remove(0);
        assert(d == ds[i]);
        if is_relevant_error(&d) {
            out.push(d);
        }
        proof {
            assert(rest@ =~= ds.subrange(ds.len() - rest@.len(), ds.len() as int));
            assert(out@ =~= spec_relevant_prefix(ds, ds.len() - rest@.len()));
        }
    }
    assert(out@ =~= spec_relevant_prefix(ds, ds.len() as int));
    out
}

/// The result of the syntactic pre-pass failing: a single diagnostic
/// carrying the parser's message, with no code and no position.
pub fn parse_failure_check(message: String) -> (r: CheckResult)
    ensures
        !r.success,
        r.diagnostics@.len() == 1,
        r.diagnostics@[0].message == message,
        r.diagnostics@[0].line is None,
        r.diagnostics@[0].column is None,
        r.diagnostics@[0].code is None,
        r.diagnostics@[0].severity@ == "error"@,
{
    let mut diagnostics: Vec<Diagnostic> = Vec::new();
    diagnostics.push(
        Diagnostic {
            message,
            line: None,
            column: None,
            severity: String::from_str("error"),
            code: None,
        },
    );
    CheckResult { success: false, diagnostics }
}

/// Whether `c` is an ASCII decimal digit.
pub open spec fn spec_is_digit(c: char) -> bool {
    '0' <= c && c <= '9'
}

/// The numeric value of a digit character.
pub open spec fn spec_digit_val(c: char) -> nat {
    if c == '0' { 0 }
    else if c == '1' { 1 }
    else if c == '2' { 2 }
    else if c == '3' { 3 }
    else if c == '4' { 4 }
    else if c == '5' { 5 }
    else if c == '6' { 6 }
    else if c == '7' { 7 }
    else if c == '8' { 8 }
    else { 9 }
}

/// The value of a digit run read most significant digit first.
pub open spec fn spec_decimal_value(s: Seq<char>) -> nat
    decreases s.len(),
{
    if s.len() == 0 {
        0
    } else {
        spec_decimal_value(s.drop_last()) * 10 + spec_digit_val(s.last())
    }
}

proof fn lemma_decimal_value_mono(s: Seq<char>, i: int)
    requires
        0 <= i <= s.len(),
    ensures
        spec_decimal_value(s) >= spec_decimal_value(s.subrange(0, i)),
    decreases s.len() - i,
{
    if i < s.len() {
        lemma_decimal_value_mono(s, i + 1);
        assert(s.subrange(0, i + 1).drop_last() =~= s.subrange(0, i));
        assert(spec_decimal_value(s.subrange(0, i + 1)) == spec_decimal_value(s.subrange(0, i))
            * 10 + spec_digit_val(s.subrange(0, i + 1).last()));
    } else {
        assert(s.subrange(0, i) =~= s);
    }
}

/// Parse a run of digits as a `u32`, `None` on overflow or when `s` holds
/// anything but digits (or nothing).  Over a non-empty all-digit run the
/// parse succeeds exactly when the value fits.
#[verifier::loop_isolation(false)]
pub fn parse_u32_digits(s: &Vec<char>, from: usize, to: usize) -> (r: Option<u32>)
    requires
        from <= to <= s@.len(),
    ensures
        r matches Some(v) ==> {
            &&& to > from
            &&& forall|j: int| from <= j < to ==> spec_is_digit(#[trigger] s@[j])
            &&& v == spec_decimal_value(s@.subrange(from as int, to as int))
        },
        (from < to && forall|j: int| from <= j < to ==> spec_is_digit(#[trigger] s@[j])) ==> (
        r is Some <==> spec_decimal_value(s@.subrange(from as int, to as int)) <= u32::MAX),
{
    if from >= to {
        return None;
    }
    let mut acc: u32 = 0;
    let mut i: usize = from;
    while i < to
        invariant
            from <= i <= to,
            forall|j: int| from <= j < i ==> spec_is_digit(#[trigger] s@[j]),
            acc == spec_decimal_value(s@.subrange(from as int, i as int)),
        decreases to - i,
    {
        let c = s[i];
        if !('0' <= c && c <= '9') {
            return None;
        }
        let d: u32 = if c == '0' { 0 }
        else if c == '1' { 1 }
        else if c == '2' { 2 }
        else if c == '3' { 3 }
        else if c == '4' { 4 }
        else if c == '5' { 5 }
        else if c == '6' { 6 }
        else if c == '7' { 7 }
        else { 8 + if c == '9' { 1 } else { 0 } };
        if acc > (u32::MAX - d) / 10 {
            proof {
                let run = s@.subrange(from as int, to as int);
                assert(spec_decimal_value(s@.subrange(from as int, i + 1)) == acc * 10
                    + spec_digit_val(s@[i as int])) by {
                    assert(s@.subrange(from as int, i + 1).drop_last() =~= s@.subrange(
                        from as int,
                        i as int,
                    ));
                }
                assert(spec_digit_val(s@[i as int]) == d);
                assert(acc * 10 + d > u32::MAX) by (nonlinear_arith)
                    requires
                        acc > (u32::MAX - d) / 10,
                        d <= 9,
                        acc <= u32::MAX,
                {}
                lemma_decimal_value_mono(run, i + 1 - from);
                assert(run.subrange(0, i + 1 - from) =~= s@.subrange(from as int, i + 1));
                assert(spec_decimal_value(run) > u32::MAX);
            }
            return None;
        }
        acc = acc * 10 + d;
        i = i + 1;
        proof {
            assert(s@.subrange(from as int, i as int).drop_last() =~= s@.subrange(
                from as int,
                i - 1,
            ));
        }
    }
    proof {
        assert(s@.subrange(from as int, to as int) =~= s@.subrange(from as int, i as int));
    }
    Some(acc)
}

/// Where the file part of a diagnostic line ends: the first `(` at or
/// after `i`, or the length when none follows.
pub open spec fn spec_open_from(line: Seq<char>, i: int) -> int
    decreases line.len() - i,
{
    if i < 0 || i >= line.len() {
        line.len() as int
    } else if line[i] == '(' {
        i
    } else {
        spec_open_from(line, i + 1)
    }
}

/// The first `(` of the line.
pub open spec fn spec_open_at(line: Seq<char>) -> int {
    spec_open_from(line, 0)
}

proof fn lemma_open_at(line: Seq<char>, i: int, j: int)
    requires
        0 <= i <= j <= line.len(),
        forall|k: int| i <= k < j ==> line[k] != '(',
        j < line.len() ==> line[j] == '(',
    ensures
        spec_open_from(line, i) == if j < line.len() {
            j
        } else {
            line.len() as int
        },
    decreases j - i,
{
    if i < j {
        lemma_open_at(line, i + 1, j);
    }
}

/// The end of the digit run starting at `i`.
pub open spec fn spec_digits_end(line: Seq<char>, i: int) -> int
    decreases line.len() - i,
{
    if i < 0 || i >= line.len() {
        line.len() as int
    } else if !spec_is_digit(line[i]) {
        i
    } else {
        spec_digits_end(line, i + 1)
    }
}

proof fn lemma_digits_end_at(line: Seq<char>, i: int, j: int)
    requires
        0 <= i <= j <= line.len(),
        forall|k: int| i <= k < j ==> spec_is_digit(#[trigger] line[k]),
        j < line.len() ==> !spec_is_digit(line[j]),
    ensures
        spec_digits_end(line, i) == if j < line.len() {
            j
        } else {
            line.len() as int
        },
    decreases j - i,
{
    if i < j {
        lemma_digits_end_at(line, i + 1, j);
    }
}

/// The end of the spacing run starting at `i`.
pub open spec fn spec_spaces_end(line: Seq<char>, i: int) -> int
    decreases line.len() - i,
{
    if i < 0 || i >= line.len() {
        line.len() as int
    } else if !spec_is_space(line[i]) {
        i
    } else {
        spec_spaces_end(line, i + 1)
    }
}

proof fn lemma_spaces_end_at(line: Seq<char>, i: int, j: int)
    requires
        0 <= i <= j <= line.len(),
        forall|k: int| i <= k < j ==> spec_is_space(#[trigger] line[k]),
        j < line.len() ==> !spec_is_space(line[j]),
    ensures
        spec_spaces_end(line, i) == if j < line.len() {
            j
        } else {
            line.len() as int
        },
    decreases j - i,
{
    if i < j {
        lemma_spaces_end_at(line, i + 1, j);
    }
}

/// Whether a line is a diagnostic: `file(line,column): error TScode:
/// message` — a non-empty file part without `(`, two digit runs in the
/// parentheses, a colon, spacing, `error`, spacing, `TS`, a digit run, a
/// colon, spacing, and a non-empty message.
pub open spec fn spec_is_diag_line(line: Seq<char>) -> bool {
    let a = spec_open_at(line);
    let j = spec_digits_end(line, a + 1);
    let k = spec_digits_end(line, j + 1);
    let m = spec_spaces_end(line, k + 2);
    let p = spec_spaces_end(line, m + 5);
    let q = spec_digits_end(line, p + 2);
    let w = spec_spaces_end(line, q + 1);
    &&& 1 <= a < line.len()
    &&& j > a + 1 && j < line.len() && line[j] == ','
    &&& k > j + 1 && k < line.len() && line[k] == ')'
    &&& k + 1 < line.len() && line[k + 1] == ':'
    &&& m > k + 2
    &&& m + 5 <= line.len() && line.subrange(m, m + 5) == "error"@
    &&& p > m + 5
    &&& p + 2 <= line.len() && line.subrange(p, p + 2) == "TS"@
    &&& q > p + 2 && q < line.len() && line[q] == ':'
    &&& w > q + 1 && w < line.len()
}

/// The message of a diagnostic line: everything after the spacing that
/// follows the code's colon.
pub open spec fn spec_diag_msg(line: Seq<char>) -> Seq<char> {
    let a = spec_open_at(line);
    let j = spec_digits_end(line, a + 1);
    let k = spec_digits_end(line, j + 1);
    let m = spec_spaces_end(line, k + 2);
    let p = spec_spaces_end(line, m + 5);
    let q = spec_digits_end(line, p + 2);
    let w = spec_spaces_end(line, q + 1);
    line.subrange(w, line.len() as int)
}

/// The line number digits of a diagnostic line, as a value.
pub open spec fn spec_diag_line_no(line: Seq<char>) -> nat {
    let a = spec_open_at(line);
    let j = spec_digits_end(line, a + 1);
    spec_decimal_value(line.subrange(a + 1, j))
}

/// The column digits of a diagnostic line, as a value.
pub open spec fn spec_diag_col_no(line: Seq<char>) -> nat {
    let a = spec_open_at(line);
    let j = spec_digits_end(line, a + 1);
    let k = spec_digits_end(line, j + 1);
    spec_decimal_value(line.subrange(j + 1, k))
}

/// The code digits of a diagnostic line, as a value.
pub open spec fn spec_diag_code(line: Seq<char>) -> nat {
    let a = spec_open_at(line);
    let j = spec_digits_end(line, a + 1);
    let k = spec_digits_end(line, j + 1);
    let m = spec_spaces_end(line, k + 2);
    let p = spec_spaces_end(line, m + 5);
    let q = spec_digits_end(line, p + 2);
    spec_decimal_value(line.subrange(p + 2, q))
}

/// Whether `d` is the diagnostic of the line: the error severity, the
/// line's message, and each numeric field carried when it fits.
pub open spec fn spec_diag_matches(line: Seq<char>, d: Diagnostic) -> bool {
    &&& d.severity@ == "error"@
    &&& d.message@ == spec_diag_msg(line)
    &&& (d.line is Some <==> spec_diag_line_no(line) <= u32::MAX)
    &&& (d.line matches Some(v) ==> v == spec_diag_line_no(line))
    &&& (d.column is Some <==> spec_diag_col_no(line) <= u32::MAX)
    &&& (d.column matches Some(v) ==> v == spec_diag_col_no(line))
    &&& (d.code is Some <==> spec_diag_code(line) <= u32::MAX)
    &&& (d.code matches Some(v) ==> v == spec_diag_code(line))
}

/// Whether `c` counts as spacing inside a diagnostic line.
pub open spec fn spec_is_space(c: char) -> bool {
    c == ' ' || c == '\t'
}

/// Parse one line of the type checker's output.  A diagnostic line reads
/// `file(line,column): error TScode: message`; anything else yields
/// nothing.  A position or code too large to represent is dropped while
/// the rest of the line is kept.
#[verifier::loop_isolation(false)]
#[verifier::rlimit(100)]
#[verifier::spinoff_prover]
fn parse_tsgo_line(cs: &Vec<char>, start: usize, end: usize) -> (r: Option<Diagnostic>)
    requires
        start <= end <= cs@.len(),
    ensures
        ({
            let line = cs@.subrange(start as int, end as int);
            &&& (r is Some <==> spec_is_diag_line(line))
            &&& (r matches Some(d) ==> spec_diag_matches(line, d))
        }),
{
    let n = end - start;
    let mut lv: Vec<char> = Vec::new();
    let mut c0: usize = start;
    while c0 < end
        invariant
            start <= c0 <= end,
            lv@ == cs@.subrange(start as int, c0 as int),
        decreases end - c0,
    {
        lv.push(cs[c0]);
        c0 = c0 + 1;
        assert(lv@ =~= cs@.subrange(start as int, c0 as int));
    }
    assert(lv@ =~= cs@.subrange(start as int, end as int));
    let ghost line = lv@;
    // the file part: one or more characters before the first `(`
    let mut a: usize = 0;
    while a < n && lv[a] != '('
        invariant
            a <= n,
            n == lv@.len(),
            forall|k: int| 0 <= k < a ==> lv@[k] != '(',
        decreases n - a,
    {
        a = a + 1;
    }
    proof {
        lemma_open_at(line, 0, a as int);
    }
    if a >= n || a == 0 {
        return None;
    }
    // line number digits, then the comma
    let mut j: usize = a + 1;
    while j < n && '0' <= lv[j] && lv[j] <= '9'
        invariant
            a + 1 <= j <= n,
            forall|k: int| a + 1 <= k < j ==> spec_is_digit(#[trigger] lv@[k]),
        decreases n - j,
    {
        j = j + 1;
    }
    proof {
        lemma_digits_end_at(line, a + 1, j as int);
    }
    if j == a + 1 || j >= n || lv[j] != ',' {
        return None;
    }
    // column digits, then the closing parenthesis and its colon
    let mut k: usize = j + 1;
    while k < n && '0' <= lv[k] && lv[k] <= '9'
        invariant
            j + 1 <= k <= n,
            forall|q: int| j + 1 <= q < k ==> spec_is_digit(#[trigger] lv@[q]),
        decreases n - k,
    {
        k = k + 1;
    }
    proof {
        lemma_digits_end_at(line, j + 1, k as int);
    }
    if k == j + 1 || k >= n || lv[k] != ')' {
        return None;
    }
    if k + 1 >= n || lv[k + 1] != ':' {
        return None;
    }
    // spacing, then `error`
    let mut m: usize = k + 2;
    while m < n && (lv[m] == ' ' || lv[m] == '\t')
        invariant
            k + 2 <= m <= n,
            forall|q: int| k + 2 <= q < m ==> spec_is_space(#[trigger] lv@[q]),
        decreases n - m,
    {
        m = m + 1;
    }
    proof {
        lemma_spaces_end_at(line, k + 2, m as int);
    }
    if m == k + 2 {
        return None;
    }
    proof {
        reveal_strlit("error");
    }
    if n - m < 5 {
        return None;
    }
    if !(lv[m] == 'e' && lv[m + 1] == 'r' && lv[m + 2] == 'r' && lv[m + 3] == 'o' && lv[m + 4]
        == 'r') {
        proof {
            assert(line.subrange(m as int, m as int + 5) != "error"@) by {
                if line.subrange(m as int, m as int + 5) == "error"@ {
                    assert(line[m as int] == "error"@[0]);
                    assert(line[m as int + 1] == "error"@[1]);
                    assert(line[m as int + 2] == "error"@[2]);
                    assert(line[m as int + 3] == "error"@[3]);
                    assert(line[m as int + 4] == "error"@[4]);
                }
            }
        }
        return None;
    }
    proof {
        assert(line.subrange(m as int, m as int + 5) =~= "error"@);
    }
    // spacing, then `TS`
    let mut p: usize = m + 5;
    while p < n && (lv[p] == ' ' || lv[p] == '\t')
        invariant
            m + 5 <= p <= n,
            forall|q: int| m + 5 <= q < p ==> spec_is_space(#[trigger] lv@[q]),
        decreases n - p,
    {
        p = p + 1;
    }
    proof {
        lemma_spaces_end_at(line, m + 5, p as int);
    }
    if p == m + 5 {
        return None;
    }
    proof {
        reveal_strlit("TS");
    }
    if n - p < 2 {
        return None;
    }
    if !(lv[p] == 'T' && lv[p + 1] == 'S') {
        proof {
            assert(line.subrange(p as int, p as int + 2) != "TS"@) by {
                if line.subrange(p as int, p as int + 2) == "TS"@ {
                    assert(line[p as int] == "TS"@[0]);
                    assert(line[p as int + 1] == "TS"@[1]);
                }
            }
        }
        return None;
    }
    proof {
        assert(line.subrange(p as int, p as int + 2) =~= "TS"@);
    }
    // code digits, then the colon
    let mut q: usize = p + 2;
    while q < n && '0' <= lv[q] && lv[q] <= '9'
        invariant
            p + 2 <= q <= n,
            forall|y: int| p + 2 <= y < q ==> spec_is_digit(#[trigger] lv@[y]),
        decreases n - q,
    {
        q = q + 1;
    }
    proof {
        lemma_digits_end_at(line, p + 2, q as int);
    }
    if q == p + 2 || q >= n || lv[q] != ':' {
        return None;
    }
    // spacing, then a non-empty message
    let mut w: usize = q + 1;
    while w < n && (lv[w] == ' ' || lv[w] == '\t')
        invariant
            q + 1 <= w <= n,
            forall|y: int| q + 1 <= y < w ==> spec_is_space(#[trigger] lv@[y]),
        decreases n - w,
    {
        w = w + 1;
    }
    proof {
        lemma_spaces_end_at(line, q + 1, w as int);
    }
    if w == q + 1 || w >= n {
        return None;
    }
    assert(spec_is_diag_line(line));
    let mut msg: Vec<char> = Vec::new();
    let mut z: usize = w;
    while z < n
        invariant
            w <= z <= n,
            msg@ == line.subrange(w as int, z as int),
        decreases n - z,
    {
        msg.push(lv[z]);
        z = z + 1;
        assert(msg@ =~= line.subrange(w as int, z as int));
    }
    assert(msg@ =~= spec_diag_msg(line));
    let line_num = parse_u32_digits(&lv, a + 1, j);
    let col_num = parse_u32_digits(&lv, j + 1, k);
    let code = parse_u32_digits(&lv, p + 2, q);
    let d = Diagnostic {
        message: string_from_chars(&msg),
        line: match line_num {
            Some(v) => Some(v as usize),
            None => None,
        },
        column: match col_num {
            Some(v) => Some(v as usize),
            None => None,
        },
        severity: String::from_str("error"),
        code,
    };
    proof {
        assert(spec_diag_matches(line, d));
    }
    Some(d)
}

/// The diagnostic lines of the checker's output, in order: the output
/// split at newlines with trailing carriage returns stripped, keeping the
/// lines that match the grammar.
pub open spec fn spec_diag_lines(s: Seq<char>) -> Seq<Seq<char>>
    decreases s.len(),
    via spec_diag_lines_dec
{
    let p = crate::client::spec_line_break(s);
    let line = s.subrange(
        0,
        if p > 0 && s[p - 1] == '\r' {
            p - 1
        } else {
            p
        },
    );
    let here: Seq<Seq<char>> = if spec_is_diag_line(line) {
        seq![line]
    } else {
        Seq::empty()
    };
    if p >= s.len() {
        here
    } else {
        here + spec_diag_lines(s.subrange(p + 1, s.len() as int))
    }
}

#[via_fn]
proof fn spec_diag_lines_dec(s: Seq<char>) {
    crate::client::lemma_line_break_bounds(s);
}

/// Scan the output from a line boundary, appending one diagnostic per
/// grammar-matching line.
#[verifier::loop_isolation(false)]
#[verifier::rlimit(100)]
#[verifier::spinoff_prover]
fn scan_diag_lines(cs: &Vec<char>, start: usize, out: &mut Vec<Diagnostic>)
    requires
        start <= cs@.len(),
    ensures
        ({
            let ls = spec_diag_lines(cs@.subrange(start as int, cs@.len() as int));
            &&& final(out)@.len() == old(out)@.len() + ls.len()
            &&& forall|j: int|
                0 <= j < old(out)@.len() ==> (#[trigger] final(out)@[j]) == old(out)@[j]
            &&& forall|j: int|
                0 <= j < ls.len() ==> spec_diag_matches(
                    #[trigger] ls[j],
                    final(out)@[old(out)@.len() + j],
                )
        }),
    decreases cs@.len() - start,
{
    let ghost suffix = cs@.subrange(start as int, cs@.len() as int);
    let mut i: usize = start;
    while i < cs.len() && cs[i] != '\n'
        invariant
            start <= i <= cs@.len(),
            forall|j: int| start <= j < i ==> cs@[j] != '\n',
        decreases cs@.len() - i,
    {
        i = i + 1;
    }
    proof {
        assert(forall|j: int| 0 <= j < i - start ==> suffix[j] != '\n');
        crate::client::lemma_line_break_at(suffix, i - start);
    }
    let ghost p = (i - start) as int;
    let mut line_end = i;
    if line_end > start && cs[line_end - 1] == '\r' {
        line_end = line_end - 1;
    }
    let ghost line = suffix.subrange(
        0,
        if p > 0 && suffix[p - 1] == '\r' {
            p - 1
        } else {
            p
        },
    );
    proof {
        assert(line =~= cs@.subrange(start as int, line_end as int));
    }
    let ghost base = out@.len() as int;
    match parse_tsgo_line(cs, start, line_end) {
        Some(d) => {
            out.push(d);
        },
        None => {},
    }
    if i >= cs.len() {
        proof {
            let ls = spec_diag_lines(suffix);
            assert(forall|j: int| 0 <= j < ls.len() ==> ls[j] == line);
        }
        return;
    }
    scan_diag_lines(cs, i + 1, out);
    proof {
        assert(cs@.subrange(i + 1, cs@.len() as int) =~= suffix.subrange(
            p + 1,
            suffix.len() as int,
        ));
        let ls = spec_diag_lines(suffix);
        let rest = spec_diag_lines(suffix.subrange(p + 1, suffix.len() as int));
        let here_len: int = ls.len() - rest.len();
        assert forall|j: int| 0 <= j < ls.len() implies spec_diag_matches(
            #[trigger] ls[j],
            out@[base + j],
        ) by {
            if j >= here_len {
                assert(ls[j] == rest[j - here_len]);
            } else {
                assert(ls[j] == line);
            }
        }
    }
}

/// Parse the type checker's whole output: one diagnostic per line
/// matching `file(line,column): error TScode: message`, in line order,
/// each carrying the line's message, positions and code.
pub fn parse_tsgo_diagnostics(output: &str) -> (r: Vec<Diagnostic>)
    ensures
        ({
            let ls = spec_diag_lines(output@);
            &&& r@.len() == ls.len()
            &&& forall|j: int|
                0 <= j < ls.len() ==> spec_diag_matches(#[trigger] ls[j], r@[j])
        }),
{
    let cs = chars_of(output);
    let mut out: Vec<Diagnostic> = Vec::new();
    scan_diag_lines(&cs, 0, &mut out);
    proof {
        assert(cs@.subrange(0, cs@.len() as int) =~= output@);
    }
    out
}

} // verus!
