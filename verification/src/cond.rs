//! Bash/zsh-style `[[ … ]]` conditional command: string, integer and
//! file tests joined by `&&` and `||`.
//!
//! File tests (`-e -f -d -r -w -x`) look at the file system; the caller
//! answers them beforehand in a [`FileFacts`] table (see
//! [`file_test_queries`]).

use vstd::prelude::*;
use crate::ast::SimpleCommand;
use crate::env::ShellEnvironment;
use crate::expand::{expand_word, expand_word_for_exec};
use crate::text::{chars_of, push_str, string_of, string_push};

verus! {

// ---------------------------------------------------------------- words

/// Unicode `White_Space` (what `char::is_whitespace` tests).
pub open spec fn is_white_space(c: char) -> bool {
    ||| ('\u{9}' <= c && c <= '\u{d}')
    ||| c == ' '
    ||| c == '\u{85}'
    ||| c == '\u{a0}'
    ||| c == '\u{1680}'
    ||| ('\u{2000}' <= c && c <= '\u{200a}')
    ||| c == '\u{2028}'
    ||| c == '\u{2029}'
    ||| c == '\u{202f}'
    ||| c == '\u{205f}'
    ||| c == '\u{3000}'
}

fn white_space(c: char) -> (b: bool)
    ensures
        b == is_white_space(c),
{
    ('\u{9}' <= c && c <= '\u{d}') || c == ' ' || c == '\u{85}' || c == '\u{a0}' || c == '\u{1680}'
        || ('\u{2000}' <= c && c <= '\u{200a}') || c == '\u{2028}' || c == '\u{2029}' || c == '\u{202f}'
        || c == '\u{205f}' || c == '\u{3000}'
}

/// Index of the first non-white-space character at or after `i`.
pub open spec fn trim_start_at(s: Seq<char>, i: int) -> int
    decreases s.len() - i,
{
    if i >= s.len() {
        s.len() as int
    } else if is_white_space(s[i]) {
        trim_start_at(s, i + 1)
    } else {
        i
    }
}

/// One past the last non-white-space character of `s[..j]`, not below `lo`.
pub open spec fn trim_end_at(s: Seq<char>, lo: int, j: int) -> int
    decreases j - lo,
{
    if j <= lo {
        lo
    } else if is_white_space(s[j - 1]) {
        trim_end_at(s, lo, j - 1)
    } else {
        j
    }
}

/// `s` without leading and trailing white space.
pub open spec fn trim(s: Seq<char>) -> Seq<char> {
    let a = trim_start_at(s, 0);
    s.subrange(a, trim_end_at(s, a, s.len() as int))
}

proof fn lemma_trim_start_bounds(s: Seq<char>, i: int)
    requires
        0 <= i <= s.len(),
    ensures
        i <= trim_start_at(s, i) <= s.len(),
    decreases s.len() - i,
{
    if i < s.len() && is_white_space(s[i]) {
        lemma_trim_start_bounds(s, i + 1);
    }
}

proof fn lemma_trim_end_bounds(s: Seq<char>, lo: int, j: int)
    requires
        0 <= lo <= j <= s.len(),
    ensures
        lo <= trim_end_at(s, lo, j) <= j,
    decreases j - lo,
{
    if j > lo && is_white_space(s[j - 1]) {
        lemma_trim_end_bounds(s, lo, j - 1);
    }
}

/// Start and end of `cs[from..to]` without surrounding white space.
pub(crate) fn trim_range(cs: &Vec<char>, from: usize, to: usize) -> (r: (usize, usize))
    requires
        from <= to <= cs@.len(),
    ensures
        r.0 <= r.1 <= to,
        from <= r.0,
        cs@.subrange(r.0 as int, r.1 as int) == trim(cs@.subrange(from as int, to as int)),
{
    let ghost s = cs@.subrange(from as int, to as int);
    let mut a: usize = from;
    while a < to && white_space(cs[a])
        invariant
            from <= a <= to <= cs@.len(),
            s == cs@.subrange(from as int, to as int),
            trim_start_at(s, 0) == trim_start_at(s, a - from),
        decreases to - a,
    {
        a += 1;
    }
    let mut b: usize = to;
    proof {
        lemma_trim_start_bounds(s, 0);
    }
    while b > a && white_space(cs[b - 1])
        invariant
            from <= a <= b <= to <= cs@.len(),
            s == cs@.subrange(from as int, to as int),
            trim_start_at(s, 0) == a - from,
            trim_end_at(s, a - from, s.len() as int) == trim_end_at(s, a - from, b - from),
        decreases b - a,
    {
        b -= 1;
    }
    assert(cs@.subrange(a as int, b as int) =~= s.subrange(a - from, b - from));
    (a, b)
}

/// A `[[ … ]]` word's inner text, trimmed, when the (trimmed) word is one.
pub open spec fn conditional_body_text(raw: Seq<char>) -> Option<Seq<char>> {
    let t = trim(raw);
    if t.len() < 4 || t[0] != '[' || t[1] != '[' || t[t.len() - 2] != ']' || t[t.len() - 1] != ']' {
        None
    } else {
        Some(trim(t.subrange(2, t.len() - 2)))
    }
}

/// The inner text of a lone `[[ … ]]` word, trimmed.
pub fn body_of(raw: &str) -> (r: Option<String>)
    ensures
        match r {
            Some(b) => conditional_body_text(raw@) == Some(b@),
            None => conditional_body_text(raw@) is None,
        },
{
    let cs = chars_of(raw);
    let (a, b) = trim_range(&cs, 0, cs.len());
    assert(cs@.subrange(0, cs@.len() as int) =~= cs@);
    let ghost t = cs@.subrange(a as int, b as int);
    if b - a < 4 || cs[a] != '[' || cs[a + 1] != '[' || cs[b - 2] != ']' || cs[b - 1] != ']' {
        return None;
    }
    let (c, d) = trim_range(&cs, a + 2, b - 2);
    assert(cs@.subrange(a + 2, b - 2) =~= t.subrange(2, t.len() - 2));
    Some(string_of(&cs, c, d))
}

/// When `simple` is a lone `[[ … ]]` word, its inner text.
pub fn conditional_body(simple: &SimpleCommand) -> (r: Option<String>)
    ensures
        simple.argv@.len() != 1 ==> r is None,
        simple.argv@.len() == 1 ==> match r {
            Some(b) => conditional_body_text(simple.argv@[0]@) == Some(b@),
            None => conditional_body_text(simple.argv@[0]@) is None,
        },
{
    if simple.argv.len() != 1 {
        return None;
    }
    body_of(simple.argv[0].as_str())
}

// ------------------------------------------------------------ integers

/// The value of a decimal digit string.
pub open spec fn digits_value(s: Seq<char>) -> nat
    decreases s.len(),
{
    if s.len() == 0 {
        0
    } else {
        digits_value(s.drop_last()) * 10 + ((s.last() as nat) - 48) as nat
    }
}

/// ASCII decimal digit.
pub open spec fn is_digit(c: char) -> bool {
    '0' <= c && c <= '9'
}

/// `s` without a leading sign.
pub open spec fn unsigned_part(s: Seq<char>) -> Seq<char> {
    if s.len() > 0 && (s[0] == '-' || s[0] == '+') { s.drop_first() } else { s }
}

/// Every character is an ASCII digit.
pub open spec fn all_digits(s: Seq<char>) -> bool {
    forall|k: int| 0 <= k < s.len() ==> is_digit(#[trigger] s[k])
}

/// What `str::parse::<i64>` accepts: an optional `+` or `-`, then one or
/// more ASCII digits, whose value fits in `i64`.
pub open spec fn parse_i64(s: Seq<char>) -> Option<int> {
    let neg = s.len() > 0 && s[0] == '-';
    let digits = unsigned_part(s);
    if digits.len() == 0 || !all_digits(digits) {
        None
    } else {
        let v: int = if neg { -(digits_value(digits) as int) } else { digits_value(digits) as int };
        if i64::MIN <= v <= i64::MAX {
            Some(v)
        } else {
            None
        }
    }
}

/// Capped accumulation of digit values: `min(value, cap)` step by step.
proof fn lemma_capped_step(v: nat, c: nat, d: nat, cap: nat)
    requires
        c == if v < cap { v } else { cap },
        d < 10,
        cap > 0,
    ensures
        (if c * 10 + d < cap { c * 10 + d } else { cap })
            == (if v * 10 + d < cap { v * 10 + d } else { cap }),
{
    if v >= cap {
        assert(v * 10 + d >= cap) by (nonlinear_arith) requires v >= cap, cap > 0;
        assert(c * 10 + d >= cap) by (nonlinear_arith) requires c == cap, cap > 0;
    }
}

/// Parses a decimal integer as `str::parse::<i64>` does.
fn parse_int(value: &String) -> (r: Result<i64, &'static str>)
    ensures
        r is Ok ==> parse_i64(value@) == Some(r->Ok_0 as int),
        r is Err ==> parse_i64(value@) is None,
        r is Err ==> r->Err_0@ == "integer expression expected"@,
{
    let cs = chars_of(value.as_str());
    let n = cs.len();
    let neg = n > 0 && cs[0] == '-';
    let start: usize = if n > 0 && (cs[0] == '-' || cs[0] == '+') { 1 } else { 0 };
    let ghost digits = unsigned_part(cs@);
    assert(digits =~= cs@.subrange(start as int, n as int));
    if start >= n {
        assert(digits.len() == 0);
        assert(parse_i64(value@) is None);
        return Err("integer expression expected");
    }
    let cap: u128 = 9223372036854775809;
    let mut acc: u128 = 0;
    let mut i: usize = start;
    while i < n
        invariant
            start <= i <= n,
            n == cs@.len(),
            cs@ == value@,
            digits == unsigned_part(cs@),
            digits == cs@.subrange(start as int, n as int),
            cap == 9223372036854775809,
            forall|k: int| start <= k < i ==> is_digit(cs@[k]),
            acc == if digits_value(cs@.subrange(start as int, i as int)) < cap {
                digits_value(cs@.subrange(start as int, i as int))
            } else {
                cap as nat
            },
        decreases n - i,
    {
        let c = cs[i];
        if !('0' <= c && c <= '9') {
            assert(!is_digit(digits[i - start]));
            return Err("integer expression expected");
        }
        let d = (c as u32 - 48) as u128;
        proof {
            let p = cs@.subrange(start as int, i + 1);
            assert(p.drop_last() =~= cs@.subrange(start as int, i as int));
            lemma_capped_step(digits_value(cs@.subrange(start as int, i as int)), acc as nat, d as nat, cap as nat);
        }
        acc = if acc * 10 + d < cap { acc * 10 + d } else { cap };
        i += 1;
    }
    assert(cs@.subrange(start as int, n as int) =~= digits);
    assert forall|k: int| 0 <= k < digits.len() implies is_digit(#[trigger] digits[k]) by {
        assert(digits[k] == cs@[start + k]);
    }
    if neg {
        if acc > 9223372036854775808 {
            return Err("integer expression expected");
        }
        let v = (0i128 - acc as i128) as i64;
        Ok(v)
    } else {
        if acc > 9223372036854775807 {
            return Err("integer expression expected");
        }
        Ok(acc as i64)
    }
}

// ------------------------------------------------------------- tests

/// Known answers to file tests: `(operator, path, holds)`.
pub type FileFacts = Vec<(String, String, bool)>;

/// The answer recorded for `op path` (the first one), or `false`.
pub open spec fn fact_holds(facts: Seq<(String, String, bool)>, op: Seq<char>, path: Seq<char>) -> bool
    decreases facts.len(),
{
    if facts.len() == 0 {
        false
    } else if facts[0].0@ == op && facts[0].1@ == path {
        facts[0].2
    } else {
        fact_holds(facts.drop_first(), op, path)
    }
}

/// The file-test operators.
pub open spec fn is_file_test(op: Seq<char>) -> bool {
    op == "-e"@ || op == "-f"@ || op == "-d"@ || op == "-r"@ || op == "-w"@ || op == "-x"@
}

/// Code-point (equivalently UTF-8 byte) lexicographic order.
pub open spec fn seq_less(a: Seq<char>, b: Seq<char>) -> bool
    decreases a.len(),
{
    if a.len() == 0 {
        b.len() > 0
    } else if b.len() == 0 {
        false
    } else if a[0] != b[0] {
        (a[0] as u32) < (b[0] as u32)
    } else {
        seq_less(a.drop_first(), b.drop_first())
    }
}

/// An integer comparison: `code` 0..5 is `-eq -ne -lt -le -gt -ge`.
pub open spec fn int_test(l: Seq<char>, r: Seq<char>, code: int) -> Result<bool, Seq<char>> {
    match (parse_i64(l), parse_i64(r)) {
        (Some(a), Some(b)) => Ok(
            if code == 0 { a == b } else if code == 1 { a != b } else if code == 2 { a < b }
            else if code == 3 { a <= b } else if code == 4 { a > b } else { a >= b },
        ),
        _ => Err("integer expression expected"@),
    }
}

/// A binary test `l op r`.
pub open spec fn binary_test(l: Seq<char>, op: Seq<char>, r: Seq<char>) -> Result<bool, Seq<char>> {
    if op == "="@ || op == "=="@ {
        Ok(l == r)
    } else if op == "!="@ {
        Ok(l != r)
    } else if op == "-eq"@ {
        int_test(l, r, 0)
    } else if op == "-ne"@ {
        int_test(l, r, 1)
    } else if op == "-lt"@ {
        int_test(l, r, 2)
    } else if op == "-le"@ {
        int_test(l, r, 3)
    } else if op == "-gt"@ {
        int_test(l, r, 4)
    } else if op == "-ge"@ {
        int_test(l, r, 5)
    } else if op == "<"@ {
        Ok(seq_less(l, r))
    } else if op == ">"@ {
        Ok(seq_less(r, l))
    } else {
        Err("unknown binary operator"@)
    }
}

/// A unary test `op arg`; file tests read `facts`.
pub open spec fn unary_test(op: Seq<char>, arg: Seq<char>, facts: Seq<(String, String, bool)>) -> Result<bool, Seq<char>> {
    if op == "-z"@ {
        Ok(arg.len() == 0)
    } else if op == "-n"@ {
        Ok(arg.len() != 0)
    } else if is_file_test(op) {
        Ok(fact_holds(facts, op, arg))
    } else {
        Err("unknown unary operator"@)
    }
}

/// `-` followed by one ASCII character (a two-byte word starting with `-`).
pub open spec fn is_short_option(op: Seq<char>) -> bool {
    op.len() == 2 && op[0] == '-' && (op[1] as u32) < 128
}

/// One test: nothing is false, one word is true when non-empty, two words
/// are a unary test, three a binary test.
pub open spec fn primary_test(ts: Seq<Seq<char>>, facts: Seq<(String, String, bool)>) -> Result<bool, Seq<char>> {
    if ts.len() == 0 {
        Ok(false)
    } else if ts.len() == 2 && is_short_option(ts[0]) {
        unary_test(ts[0], ts[1], facts)
    } else if ts.len() == 3 {
        binary_test(ts[0], ts[1], ts[2])
    } else if ts.len() == 1 {
        Ok(ts[0].len() != 0)
    } else {
        Err("parse error"@)
    }
}

/// The words between occurrences of `sep` (always at least one part).
pub open spec fn split_words(ts: Seq<Seq<char>>, sep: Seq<char>) -> Seq<Seq<Seq<char>>>
    decreases ts.len(),
{
    if ts.len() == 0 {
        seq![Seq::empty()]
    } else {
        let p = split_words(ts.drop_last(), sep);
        if ts.last() == sep {
            p.push(Seq::empty())
        } else {
            p.update(p.len() - 1, p.last().push(ts.last()))
        }
    }
}

pub proof fn lemma_split_nonempty(ts: Seq<Seq<char>>, sep: Seq<char>)
    ensures
        split_words(ts, sep).len() >= 1,
    decreases ts.len(),
{
    if ts.len() > 0 {
        lemma_split_nonempty(ts.drop_last(), sep);
    }
}

/// Conjunction of tests, left to right, stopping at the first false one
/// or the first error.
pub open spec fn and_parts(parts: Seq<Seq<Seq<char>>>, facts: Seq<(String, String, bool)>) -> Result<bool, Seq<char>>
    decreases parts.len(),
{
    if parts.len() == 0 {
        Ok(true)
    } else {
        match primary_test(parts[0], facts) {
            Err(e) => Err(e),
            Ok(false) => Ok(false),
            Ok(true) => and_parts(parts.drop_first(), facts),
        }
    }
}

/// `&&`-joined tests.
pub open spec fn and_test(ts: Seq<Seq<char>>, facts: Seq<(String, String, bool)>) -> Result<bool, Seq<char>> {
    and_parts(split_words(ts, "&&"@), facts)
}

/// Disjunction of `&&`-groups, left to right, stopping at the first true
/// one or the first error.
pub open spec fn or_parts(parts: Seq<Seq<Seq<char>>>, facts: Seq<(String, String, bool)>) -> Result<bool, Seq<char>>
    decreases parts.len(),
{
    if parts.len() == 0 {
        Ok(false)
    } else {
        match and_test(parts[0], facts) {
            Err(e) => Err(e),
            Ok(true) => Ok(true),
            Ok(false) => or_parts(parts.drop_first(), facts),
        }
    }
}

/// The value of a `[[ … ]]` expression over its (expanded) words.
pub open spec fn condition(ts: Seq<Seq<char>>, facts: Seq<(String, String, bool)>) -> Result<bool, Seq<char>> {
    or_parts(split_words(ts, "||"@), facts)
}

/// The views of a vector of strings.
pub open spec fn texts(v: Seq<String>) -> Seq<Seq<char>> {
    v.map_values(|s: String| s@)
}

/// The views of a vector of token vectors.
pub open spec fn texts_of_parts(v: Seq<Vec<String>>) -> Seq<Seq<Seq<char>>> {
    v.map_values(|p: Vec<String>| texts(p@))
}

fn is_word(s: &String, lit: &str) -> (b: bool)
    ensures
        b == (s@ == lit@),
{
    *s == String::from_str(lit)
}

fn less(a: &String, b: &String) -> (r: bool)
    ensures
        r == seq_less(a@, b@),
{
    let x = chars_of(a.as_str());
    let y = chars_of(b.as_str());
    let mut i: usize = 0;
    assert(x@.skip(0) =~= x@);
    assert(y@.skip(0) =~= y@);
    while i < x.len() && i < y.len() && x[i] == y[i]
        invariant
            i <= x@.len(),
            i <= y@.len(),
            x@ == a@,
            y@ == b@,
            seq_less(a@, b@) == seq_less(x@.skip(i as int), y@.skip(i as int)),
        decreases x.len() - i,
    {
        assert(x@.skip(i as int).drop_first() =~= x@.skip(i + 1));
        assert(y@.skip(i as int).drop_first() =~= y@.skip(i + 1));
        i += 1;
    }
    let ghost xs = x@.skip(i as int);
    let ghost ys = y@.skip(i as int);
    if i == x.len() {
        assert(xs.len() == 0);
        i < y.len()
    } else if i == y.len() {
        assert(ys.len() == 0 && xs.len() > 0);
        false
    } else {
        assert(xs[0] == x@[i as int] && ys[0] == y@[i as int]);
        (x[i] as u32) < (y[i] as u32)
    }
}

fn int_compare(left: &String, right: &String, code: u8) -> (r: Result<bool, &'static str>)
    requires
        code < 6,
    ensures
        match (r, int_test(left@, right@, code as int)) {
            (Ok(a), Ok(b)) => a == b,
            (Err(m), Err(n)) => m@ == n,
            _ => false,
        },
{
    let a = match parse_int(left) {
        Ok(a) => a,
        Err(m) => return Err(m),
    };
    let b = match parse_int(right) {
        Ok(b) => b,
        Err(m) => return Err(m),
    };
    Ok(if code == 0 { a == b } else if code == 1 { a != b } else if code == 2 { a < b }
        else if code == 3 { a <= b } else if code == 4 { a > b } else { a >= b })
}

/// Binary `[[` tests (string and integer comparisons).
pub fn binary_eval(left: &String, op: &String, right: &String) -> (r: Result<bool, &'static str>)
    ensures
        match (r, binary_test(left@, op@, right@)) {
            (Ok(a), Ok(b)) => a == b,
            (Err(m), Err(n)) => m@ == n,
            _ => false,
        },
{
    if is_word(op, "=") || is_word(op, "==") {
        Ok(*left == *right)
    } else if is_word(op, "!=") {
        Ok(!(*left == *right))
    } else if is_word(op, "-eq") {
        int_compare(left, right, 0)
    } else if is_word(op, "-ne") {
        int_compare(left, right, 1)
    } else if is_word(op, "-lt") {
        int_compare(left, right, 2)
    } else if is_word(op, "-le") {
        int_compare(left, right, 3)
    } else if is_word(op, "-gt") {
        int_compare(left, right, 4)
    } else if is_word(op, "-ge") {
        int_compare(left, right, 5)
    } else if is_word(op, "<") {
        Ok(less(left, right))
    } else if is_word(op, ">") {
        Ok(less(right, left))
    } else {
        Err("unknown binary operator")
    }
}

fn lookup_fact(facts: &FileFacts, op: &String, path: &String) -> (b: bool)
    ensures
        b == fact_holds(facts@, op@, path@),
{
    let mut i: usize = 0;
    assert(facts@.skip(0) =~= facts@);
    while i < facts.len()
        invariant
            i <= facts@.len(),
            fact_holds(facts@, op@, path@) == fact_holds(facts@.skip(i as int), op@, path@),
        decreases facts.len() - i,
    {
        assert(facts@.skip(i as int).drop_first() =~= facts@.skip(i + 1));
        if facts[i].0 == *op && facts[i].1 == *path {
            return facts[i].2;
        }
        i += 1;
    }
    false
}

fn is_file_test_word(op: &String) -> (b: bool)
    ensures
        b == is_file_test(op@),
{
    is_word(op, "-e") || is_word(op, "-f") || is_word(op, "-d") || is_word(op, "-r") || is_word(op, "-w")
        || is_word(op, "-x")
}

/// Unary `[[` tests (`-z`, `-n`, and the file tests answered by `facts`).
pub fn unary_eval(op: &String, arg: &String, facts: &FileFacts) -> (r: Result<bool, &'static str>)
    ensures
        match (r, unary_test(op@, arg@, facts@)) {
            (Ok(a), Ok(b)) => a == b,
            (Err(m), Err(n)) => m@ == n,
            _ => false,
        },
{
    if is_word(op, "-z") {
        Ok(arg.as_str().is_empty())
    } else if is_word(op, "-n") {
        Ok(!arg.as_str().is_empty())
    } else if is_file_test_word(op) {
        Ok(lookup_fact(facts, op, arg))
    } else {
        Err("unknown unary operator")
    }
}

fn short_option(op: &String) -> (b: bool)
    ensures
        b == is_short_option(op@),
{
    let cs = chars_of(op.as_str());
    cs.len() == 2 && cs[0] == '-' && (cs[1] as u32) < 128
}

fn primary(tokens: &Vec<String>, facts: &FileFacts) -> (r: Result<bool, &'static str>)
    ensures
        match (r, primary_test(texts(tokens@), facts@)) {
            (Ok(a), Ok(b)) => a == b,
            (Err(m), Err(n)) => m@ == n,
            _ => false,
        },
{
    let n = tokens.len();
    if n == 0 {
        Ok(false)
    } else if n == 2 && short_option(&tokens[0]) {
        unary_eval(&tokens[0], &tokens[1], facts)
    } else if n == 3 {
        binary_eval(&tokens[0], &tokens[1], &tokens[2])
    } else if n == 1 {
        Ok(!tokens[0].as_str().is_empty())
    } else {
        Err("parse error")
    }
}

fn split(tokens: &Vec<String>, separator: &str) -> (parts: Vec<Vec<String>>)
    ensures
        texts_of_parts(parts@) == split_words(texts(tokens@), separator@),
{
    let mut parts: Vec<Vec<String>> = Vec::new();
    let mut current: Vec<String> = Vec::new();
    let ghost ts = texts(tokens@);
    let mut i: usize = 0;
    proof {
        assert(ts.take(0) =~= Seq::<Seq<char>>::empty());
        assert(texts(current@) =~= Seq::<Seq<char>>::empty());
        assert(texts_of_parts(parts@) =~= Seq::<Seq<Seq<char>>>::empty());
        assert(texts_of_parts(parts@).push(texts(current@)) =~= seq![Seq::<Seq<char>>::empty()]);
    }
    while i < tokens.len()
        invariant
            i <= tokens@.len(),
            ts == texts(tokens@),
            texts_of_parts(parts@).push(texts(current@)) == split_words(ts.take(i as int), separator@),
        decreases tokens.len() - i,
    {
        let ghost before = split_words(ts.take(i as int), separator@);
        proof {
            assert(ts.take(i + 1).drop_last() =~= ts.take(i as int));
            assert(ts.take(i + 1).last() == tokens@[i as int]@);
        }
        if is_word(&tokens[i], separator) {
            let ghost old_parts = texts_of_parts(parts@);
            let ghost old_cur = texts(current@);
            let mut done: Vec<String> = Vec::new();
            std::mem::swap(&mut done, &mut current);
            parts.push(done);
            proof {
                assert(texts(current@) =~= Seq::<Seq<char>>::empty());
                assert(texts_of_parts(parts@) =~= old_parts.push(old_cur));
                assert(texts_of_parts(parts@).push(texts(current@)) =~= before.push(Seq::empty()));
            }
        } else {
            let ghost old_parts = texts_of_parts(parts@);
            let ghost old_cur = texts(current@);
            current.push(tokens[i].clone());
            proof {
                assert(texts(current@) =~= old_cur.push(tokens@[i as int]@));
                assert(texts_of_parts(parts@).push(texts(current@)) =~= before.update(before.len() - 1, before.last().push(tokens@[i as int]@)));
            }
        }
        i += 1;
    }
    assert(ts.take(tokens@.len() as int) =~= ts);
    parts.push(current);
    parts
}

fn and_expr(tokens: &Vec<String>, facts: &FileFacts) -> (r: Result<bool, &'static str>)
    ensures
        match (r, and_test(texts(tokens@), facts@)) {
            (Ok(a), Ok(b)) => a == b,
            (Err(m), Err(n)) => m@ == n,
            _ => false,
        },
{
    let parts = split(tokens, "&&");
    let ghost ps = texts_of_parts(parts@);
    let mut k: usize = 0;
    assert(ps.skip(0) =~= ps);
    while k < parts.len()
        invariant
            k <= parts@.len(),
            ps == texts_of_parts(parts@),
            and_test(texts(tokens@), facts@) == and_parts(ps.skip(k as int), facts@),
        decreases parts.len() - k,
    {
        assert(ps.skip(k as int).drop_first() =~= ps.skip(k + 1));
        assert(ps.skip(k as int)[0] == texts(parts@[k as int]@));
        match primary(&parts[k], facts) {
            Err(m) => return Err(m),
            Ok(false) => return Ok(false),
            Ok(true) => {},
        }
        k += 1;
    }
    Ok(true)
}

fn or_expr(tokens: &Vec<String>, facts: &FileFacts) -> (r: Result<bool, &'static str>)
    ensures
        match (r, condition(texts(tokens@), facts@)) {
            (Ok(a), Ok(b)) => a == b,
            (Err(m), Err(n)) => m@ == n,
            _ => false,
        },
{
    let parts = split(tokens, "||");
    let ghost ps = texts_of_parts(parts@);
    let mut k: usize = 0;
    assert(ps.skip(0) =~= ps);
    while k < parts.len()
        invariant
            k <= parts@.len(),
            ps == texts_of_parts(parts@),
            condition(texts(tokens@), facts@) == or_parts(ps.skip(k as int), facts@),
        decreases parts.len() - k,
    {
        assert(ps.skip(k as int).drop_first() =~= ps.skip(k + 1));
        assert(ps.skip(k as int)[0] == texts(parts@[k as int]@));
        match and_expr(&parts[k], facts) {
            Err(m) => return Err(m),
            Ok(true) => return Ok(true),
            Ok(false) => {},
        }
        k += 1;
    }
    Ok(false)
}

/// Evaluates a `[[ … ]]` expression over its expanded words.
pub fn eval(tokens: &Vec<String>, facts: &FileFacts) -> (r: Result<bool, &'static str>)
    ensures
        match (r, condition(texts(tokens@), facts@)) {
            (Ok(a), Ok(b)) => a == b,
            (Err(m), Err(n)) => m@ == n,
            _ => false,
        },
{
    or_expr(tokens, facts)
}

// ------------------------------------------------------------ running

/// A word of the `[[ … ]]` body as the tokenizer produced it.
pub struct Token {
    /// Operator tokens (`&&`, `||`, `<`, `>`, …) are kept verbatim.
    pub operator: bool,
    pub text: String,
}

/// A token after expansion: operators verbatim, other words expanded.
pub open spec fn token_expansion(t: Token, env: ShellEnvironment, last_status: u8) -> Option<Seq<char>> {
    if t.operator {
        Some(t.text@)
    } else {
        match expand_word(t.text@, env, last_status) {
            Ok(w) => Some(w),
            Err(_) => None,
        }
    }
}

/// All tokens expanded, or `None` when one fails.
pub open spec fn expanded_words(ts: Seq<Token>, env: ShellEnvironment, last_status: u8) -> Option<Seq<Seq<char>>>
    decreases ts.len(),
{
    if ts.len() == 0 {
        Some(Seq::empty())
    } else {
        match (expanded_words(ts.drop_last(), env, last_status), token_expansion(ts.last(), env, last_status)) {
            (Some(ws), Some(w)) => Some(ws.push(w)),
            _ => None,
        }
    }
}

/// Expands one token of a `[[ … ]]` body.
pub fn expand_token(token: &Token, env: &ShellEnvironment, last_status: u8) -> (r: Result<String, &'static str>)
    ensures
        match r {
            Ok(w) => token_expansion(*token, *env, last_status) == Some(w@),
            Err(m) => token_expansion(*token, *env, last_status) is None && m@ == "expansion failed"@,
        },
{
    if token.operator {
        return Ok(token.text.clone());
    }
    match expand_word_for_exec(token.text.as_str(), env, last_status) {
        Ok(w) => Ok(w),
        Err(_) => Err("expansion failed"),
    }
}

/// Expands every token, stopping at the first failure.
pub fn expanded_tokens(tokens: &Vec<Token>, env: &ShellEnvironment, last_status: u8) -> (r: Result<Vec<String>, &'static str>)
    ensures
        match r {
            Ok(ws) => expanded_words(tokens@, *env, last_status) == Some(texts(ws@)),
            Err(m) => expanded_words(tokens@, *env, last_status) is None && m@ == "expansion failed"@,
        },
{
    let mut out: Vec<String> = Vec::new();
    let mut i: usize = 0;
    assert(texts(out@) =~= Seq::<Seq<char>>::empty());
    while i < tokens.len()
        invariant
            i <= tokens@.len(),
            expanded_words(tokens@.take(i as int), *env, last_status) == Some(texts(out@)),
        decreases tokens.len() - i,
    {
        assert(tokens@.take(i + 1).drop_last() =~= tokens@.take(i as int));
        assert(tokens@.take(i + 1).last() == tokens@[i as int]);
        match expand_token(&tokens[i], env, last_status) {
            Ok(w) => {
                let ghost before = texts(out@);
                out.push(w);
                assert(texts(out@) =~= before.push(w@));
            },
            Err(m) => {
                proof {
                    lemma_expanded_words_none(tokens@, i as int + 1, *env, last_status);
                    assert(tokens@.take(tokens@.len() as int) =~= tokens@);
                }
                return Err(m);
            },
        }
        i += 1;
    }
    assert(tokens@.take(tokens@.len() as int) =~= tokens@);
    Ok(out)
}

proof fn lemma_expanded_words_none(ts: Seq<Token>, k: int, env: ShellEnvironment, last_status: u8)
    requires
        0 <= k <= ts.len(),
        expanded_words(ts.take(k), env, last_status) is None,
    ensures
        expanded_words(ts, env, last_status) is None,
    decreases ts.len() - k,
{
    if k < ts.len() {
        assert(ts.take(k + 1).drop_last() =~= ts.take(k));
        lemma_expanded_words_none(ts, k + 1, env, last_status);
    } else {
        assert(ts.take(k) =~= ts);
    }
}

/// The status of a `[[ … ]]` command and what it writes to the error
/// stream: 0 when true, 1 when false, 2 (with `[[: message`) on error.
pub open spec fn conditional_outcome(ts: Seq<Token>, env: ShellEnvironment, last_status: u8, facts: Seq<(String, String, bool)>) -> (u8, Seq<char>) {
    match expanded_words(ts, env, last_status) {
        None => (2, "[[: "@ + "expansion failed"@ + seq!['\n']),
        Some(ws) => match condition(ws, facts) {
            Ok(true) => (0, Seq::empty()),
            Ok(false) => (1, Seq::empty()),
            Err(m) => (2, "[[: "@ + m + seq!['\n']),
        },
    }
}

/// Runs a `[[ … ]]` command over its body's tokens.
pub fn run(tokens: &Vec<Token>, env: &ShellEnvironment, last_status: u8, facts: &FileFacts, err: &mut String) -> (status: u8)
    ensures
        status == conditional_outcome(tokens@, *env, last_status, facts@).0,
        final(err)@ == old(err)@ + conditional_outcome(tokens@, *env, last_status, facts@).1,
{
    let result = match expanded_tokens(tokens, env, last_status) {
        Ok(words) => eval(&words, facts),
        Err(m) => Err(m),
    };
    match result {
        Ok(true) => {
            assert(old(err)@ + Seq::<char>::empty() =~= old(err)@);
            0
        },
        Ok(false) => {
            assert(old(err)@ + Seq::<char>::empty() =~= old(err)@);
            1
        },
        Err(m) => {
            let ghost before = err@;
            push_str(err, "[[: ");
            push_str(err, m);
            string_push(err, '\n');
            assert(err@ =~= before + ("[[: "@ + m@ + seq!['\n']));
            2
        },
    }
}

/// Runs a `[[ … ]]` command whose body was split into tokens, or failed
/// to (`None`), which is the error `parse error`.
pub fn run_lexed(tokens: Option<Vec<Token>>, env: &ShellEnvironment, last_status: u8, facts: &FileFacts, err: &mut String) -> (status: u8)
    ensures
        match tokens {
            None => status == 2 && final(err)@ == old(err)@ + "[[: parse error\n"@,
            Some(ts) => status == conditional_outcome(ts@, *env, last_status, facts@).0
                && final(err)@ == old(err)@ + conditional_outcome(ts@, *env, last_status, facts@).1,
        },
{
    match tokens {
        Some(ts) => run(&ts, env, last_status, facts, err),
        None => {
            push_str(err, "[[: parse error\n");
            2
        },
    }
}

/// The `(operator, path)` pairs among `ws[..i]`: each file-test operator
/// with the word after it.
pub open spec fn file_queries(ws: Seq<Seq<char>>, i: int) -> Seq<(Seq<char>, Seq<char>)>
    decreases i,
{
    if i <= 0 {
        Seq::empty()
    } else if i < ws.len() && is_file_test(ws[i - 1]) {
        file_queries(ws, i - 1).push((ws[i - 1], ws[i]))
    } else {
        file_queries(ws, i - 1)
    }
}

/// The file tests an expression over `words` may ask about, in order.
pub fn file_test_queries(words: &Vec<String>) -> (q: Vec<(String, String)>)
    ensures
        q@.map_values(|p: (String, String)| (p.0@, p.1@)) == file_queries(texts(words@), words@.len() - 1),
{
    let mut q: Vec<(String, String)> = Vec::new();
    let ghost ws = texts(words@);
    let n = words.len();
    if n < 2 {
        assert(q@.map_values(|p: (String, String)| (p.0@, p.1@)) =~= file_queries(ws, n - 1));
        return q;
    }
    let mut i: usize = 0;
    assert(q@.map_values(|p: (String, String)| (p.0@, p.1@)) =~= file_queries(ws, 0));
    while i < n - 1
        invariant
            n == words@.len(),
            n >= 2,
            ws == texts(words@),
            i <= n - 1,
            q@.map_values(|p: (String, String)| (p.0@, p.1@)) == file_queries(ws, i as int),
        decreases n - i,
    {
        let ghost before = q@.map_values(|p: (String, String)| (p.0@, p.1@));
        if is_file_test_word(&words[i]) {
            q.push((words[i].clone(), words[i + 1].clone()));
            assert(q@.map_values(|p: (String, String)| (p.0@, p.1@)) =~= before.push((ws[i as int], ws[i + 1])));
        }
        i += 1;
    }
    q
}

} // verus!
