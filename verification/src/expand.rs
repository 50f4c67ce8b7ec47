//! Word expansion for execution: quotes and escapes, then `$` parameters.
//!
//! Dollar expansion runs in unquoted and double-quoted regions only (not
//! inside `'…'`). Supported parameters: `$NAME`, `${NAME}`, `$?` and
//! `$status` (both the last exit status).

use vstd::prelude::*;
use crate::env::ShellEnvironment;
use crate::text::{decimal, push_chars, push_decimal, string_of, string_push};

verus! {

/// Why a word could not be expanded.
#[derive(PartialEq, Eq, Structural, Clone, Copy, Debug)]
pub enum LexError {
    /// A `'` or `"` region was still open at the end of the word.
    UnclosedQuote,
    /// A command substitution could not be run.
    CommandSubstitution,
}

/// Which quoting region the scanner is in.
#[derive(PartialEq, Eq, Structural, Clone, Copy, Debug)]
pub enum QuoteState {
    Normal,
    Single,
    Double,
}

/// ASCII letter or underscore.
pub open spec fn is_name_start_char(c: char) -> bool {
    ('a' <= c && c <= 'z') || ('A' <= c && c <= 'Z') || c == '_'
}

/// ASCII letter, digit or underscore.
pub open spec fn is_name_continue_char(c: char) -> bool {
    is_name_start_char(c) || ('0' <= c && c <= '9')
}

/// Characters that a backslash escapes inside double quotes.
pub open spec fn is_double_quote_escapable(c: char) -> bool {
    c == '"' || c == '\\' || c == '$' || c == '`' || c == '\n'
}

/// Index of the first `}` at or after `j`, or `s.len()` when there is none.
pub open spec fn close_brace_at(s: Seq<char>, j: int) -> int
    decreases s.len() - j,
{
    if j >= s.len() {
        s.len() as int
    } else if s[j] == '}' {
        j
    } else {
        close_brace_at(s, j + 1)
    }
}

/// Index of the first non-name character at or after `j`, or `s.len()`.
pub open spec fn name_end_at(s: Seq<char>, j: int) -> int
    decreases s.len() - j,
{
    if j >= s.len() {
        s.len() as int
    } else if !is_name_continue_char(s[j]) {
        j
    } else {
        name_end_at(s, j + 1)
    }
}

/// The word `status`.
pub open spec fn status_name() -> Seq<char> {
    seq!['s', 't', 'a', 't', 'u', 's']
}

/// What a named parameter expands to: `status` is the last exit status,
/// any other name its variable's value, or nothing when it is unset.
pub open spec fn named_value(name: Seq<char>, env: ShellEnvironment, last_status: u8) -> Seq<char> {
    if name == status_name() {
        decimal(last_status as nat)
    } else {
        match env.spec_lookup(name) {
            Some(v) => v,
            None => Seq::empty(),
        }
    }
}

/// The parameter that follows a `$` whose next character is at `k`: the
/// text it expands to and the index where scanning resumes.
pub open spec fn parameter(s: Seq<char>, k: int, env: ShellEnvironment, last_status: u8) -> (Seq<char>, int) {
    if k >= s.len() {
        (seq!['$'], k)
    } else if s[k] == '?' {
        (decimal(last_status as nat), k + 1)
    } else if s[k] == '{' {
        let c = close_brace_at(s, k + 1);
        if c >= s.len() {
            (seq!['$', '{'] + s.subrange(k + 1, s.len() as int), s.len() as int)
        } else if c == k + 1 {
            (Seq::empty(), c + 1)
        } else {
            (named_value(s.subrange(k + 1, c), env, last_status), c + 1)
        }
    } else if is_name_start_char(s[k]) {
        let e = name_end_at(s, k + 1);
        (named_value(s.subrange(k, e), env, last_status), e)
    } else {
        (seq!['$'], k)
    }
}

/// One scanning step at index `i` in quoting state `st`: the emitted
/// text, the next index and the next state.
pub open spec fn step(s: Seq<char>, i: int, st: QuoteState, env: ShellEnvironment, last_status: u8) -> (Seq<char>, int, QuoteState) {
    let c = s[i];
    match st {
        QuoteState::Normal => {
            if c == '\'' {
                (Seq::empty(), i + 1, QuoteState::Single)
            } else if c == '"' {
                (Seq::empty(), i + 1, QuoteState::Double)
            } else if c == '\\' {
                if i + 1 < s.len() {
                    (seq![s[i + 1]], i + 2, QuoteState::Normal)
                } else {
                    (Seq::empty(), i + 1, QuoteState::Normal)
                }
            } else if c == '$' {
                let p = parameter(s, i + 1, env, last_status);
                (p.0, p.1, QuoteState::Normal)
            } else {
                (seq![c], i + 1, QuoteState::Normal)
            }
        },
        QuoteState::Single => {
            if c == '\'' {
                (Seq::empty(), i + 1, QuoteState::Normal)
            } else {
                (seq![c], i + 1, QuoteState::Single)
            }
        },
        QuoteState::Double => {
            if c == '"' {
                (Seq::empty(), i + 1, QuoteState::Normal)
            } else if c == '\\' {
                if i + 1 < s.len() {
                    if is_double_quote_escapable(s[i + 1]) {
                        (seq![s[i + 1]], i + 2, QuoteState::Double)
                    } else {
                        (seq!['\\', s[i + 1]], i + 2, QuoteState::Double)
                    }
                } else {
                    (Seq::empty(), i + 1, QuoteState::Double)
                }
            } else if c == '$' {
                let p = parameter(s, i + 1, env, last_status);
                (p.0, p.1, QuoteState::Double)
            } else {
                (seq![c], i + 1, QuoteState::Double)
            }
        },
    }
}

pub proof fn lemma_close_brace_bounds(s: Seq<char>, j: int)
    requires
        0 <= j,
    ensures
        j <= close_brace_at(s, j) <= s.len() || (j > s.len() && close_brace_at(s, j) == s.len()),
        close_brace_at(s, j) < s.len() ==> s[close_brace_at(s, j)] == '}',
    decreases s.len() - j,
{
    if j < s.len() && s[j] != '}' {
        lemma_close_brace_bounds(s, j + 1);
    }
}

pub proof fn lemma_name_end_bounds(s: Seq<char>, j: int)
    requires
        0 <= j <= s.len(),
    ensures
        j <= name_end_at(s, j) <= s.len(),
    decreases s.len() - j,
{
    if j < s.len() && is_name_continue_char(s[j]) {
        lemma_name_end_bounds(s, j + 1);
    }
}

pub proof fn lemma_parameter_bounds(s: Seq<char>, k: int, env: ShellEnvironment, last_status: u8)
    requires
        0 <= k <= s.len(),
    ensures
        k <= parameter(s, k, env, last_status).1 <= s.len(),
{
    if k < s.len() {
        if s[k] == '{' {
            lemma_close_brace_bounds(s, k + 1);
        } else if is_name_start_char(s[k]) {
            lemma_name_end_bounds(s, k + 1);
        }
    }
}

pub proof fn lemma_step_advances(s: Seq<char>, i: int, st: QuoteState, env: ShellEnvironment, last_status: u8)
    requires
        0 <= i < s.len(),
    ensures
        i < step(s, i, st, env, last_status).1 <= s.len(),
{
    lemma_parameter_bounds(s, i + 1, env, last_status);
}

/// Expansion of `s[i..]` starting in state `st`: the text produced and the
/// quoting state at the end of the word.
pub open spec fn expand_from(s: Seq<char>, i: int, st: QuoteState, env: ShellEnvironment, last_status: u8) -> (Seq<char>, QuoteState)
    decreases s.len() - i,
{
    if i < 0 || i >= s.len() {
        (Seq::empty(), st)
    } else {
        proof {
            lemma_step_advances(s, i, st, env, last_status);
        }
        let r = step(s, i, st, env, last_status);
        let t = expand_from(s, r.1, r.2, env, last_status);
        (r.0 + t.0, t.1)
    }
}

/// The expansion of a whole word: its text, or `UnclosedQuote` when a
/// quoted region is left open.
pub open spec fn expand_word(s: Seq<char>, env: ShellEnvironment, last_status: u8) -> Result<Seq<char>, LexError> {
    let r = expand_from(s, 0, QuoteState::Normal, env, last_status);
    if r.1 == QuoteState::Normal {
        Ok(r.0)
    } else {
        Err(LexError::UnclosedQuote)
    }
}

/// Expand a raw word for argv / redirects: strip quotes, apply escapes,
/// expand `$VAR`, `${VAR}`, `$?`, and `$status`.
pub fn expand_word_for_exec(raw: &str, env: &ShellEnvironment, last_status: u8) -> (r: Result<String, LexError>)
    ensures
        match r {
            Ok(s) => expand_word(raw@, *env, last_status) == Ok::<Seq<char>, LexError>(s@),
            Err(e) => expand_word(raw@, *env, last_status) == Err::<Seq<char>, LexError>(e),
        },
{
    let mut out = String::new();
    match expand_word_for_exec_into(raw, env, last_status, &mut out) {
        Ok(()) => Ok(out),
        Err(e) => Err(e),
    }
}

/// Like [`expand_word_for_exec`], writing into `out` (cleared first). On
/// an unclosed quote, `out` holds the text expanded before the error.
pub fn expand_word_for_exec_into(raw: &str, env: &ShellEnvironment, last_status: u8, out: &mut String) -> (r: Result<(), LexError>)
    ensures
        final(out)@ == expand_from(raw@, 0, QuoteState::Normal, *env, last_status).0,
        r is Ok <==> expand_from(raw@, 0, QuoteState::Normal, *env, last_status).1 == QuoteState::Normal,
        r is Err ==> r == Err::<(), LexError>(LexError::UnclosedQuote),
{
    let cs = crate::text::chars_of(raw);
    *out = String::new();
    let ghost s = cs@;
    let ghost total = expand_from(s, 0, QuoteState::Normal, *env, last_status);
    let n = cs.len();
    let mut i: usize = 0;
    let mut st = QuoteState::Normal;
    while i < n
        invariant
            s == cs@,
            s == raw@,
            n == s.len(),
            i <= n,
            total == expand_from(s, 0, QuoteState::Normal, *env, last_status),
            out@ + expand_from(s, i as int, st, *env, last_status).0 == total.0,
            expand_from(s, i as int, st, *env, last_status).1 == total.1,
        decreases n - i,
    {
        let ghost before = out@;
        let ghost r = step(s, i as int, st, *env, last_status);
        let ghost rest = expand_from(s, r.1, r.2, *env, last_status);
        proof {
            lemma_step_advances(s, i as int, st, *env, last_status);
        }
        let c = cs[i];
        match st {
            QuoteState::Normal => {
                if c == '\'' {
                    st = QuoteState::Single;
                    i += 1;
                } else if c == '"' {
                    st = QuoteState::Double;
                    i += 1;
                } else if c == '\\' {
                    if i + 1 < n {
                        string_push(out, cs[i + 1]);
                        i += 2;
                    } else {
                        i += 1;
                    }
                } else if c == '$' {
                    i = push_parameter(&cs, i + 1, env, last_status, out);
                } else {
                    string_push(out, c);
                    i += 1;
                }
            },
            QuoteState::Single => {
                if c == '\'' {
                    st = QuoteState::Normal;
                } else {
                    string_push(out, c);
                }
                i += 1;
            },
            QuoteState::Double => {
                if c == '"' {
                    st = QuoteState::Normal;
                    i += 1;
                } else if c == '\\' {
                    if i + 1 < n {
                        let next = cs[i + 1];
                        if next == '"' || next == '\\' || next == '$' || next == '`' || next == '\n' {
                            string_push(out, next);
                        } else {
                            string_push(out, '\\');
                            string_push(out, next);
                        }
                        i += 2;
                    } else {
                        i += 1;
                    }
                } else if c == '$' {
                    i = push_parameter(&cs, i + 1, env, last_status, out);
                } else {
                    string_push(out, c);
                    i += 1;
                }
            },
        }
        proof {
            assert(out@ == before + r.0);
            assert(i == r.1 && st == r.2);
            assert(before + (r.0 + rest.0) =~= (before + r.0) + rest.0);
        }
    }
    if st != QuoteState::Normal {
        return Err(LexError::UnclosedQuote);
    }
    Ok(())
}

fn is_name_start(c: char) -> (b: bool)
    ensures
        b == is_name_start_char(c),
{
    ('a' <= c && c <= 'z') || ('A' <= c && c <= 'Z') || c == '_'
}

fn is_name_continue(c: char) -> (b: bool)
    ensures
        b == is_name_continue_char(c),
{
    is_name_start(c) || ('0' <= c && c <= '9')
}

/// Expands the parameter after a `$` whose next character is at `k`,
/// appending its text; returns where scanning resumes.
fn push_parameter(cs: &Vec<char>, k: usize, env: &ShellEnvironment, last_status: u8, out: &mut String) -> (j: usize)
    requires
        k <= cs@.len(),
    ensures
        final(out)@ == old(out)@ + parameter(cs@, k as int, *env, last_status).0,
        j == parameter(cs@, k as int, *env, last_status).1,
{
    let n = cs.len();
    if k >= n {
        string_push(out, '$');
        return k;
    }
    let c = cs[k];
    if c == '?' {
        push_decimal(out, last_status);
        return k + 1;
    }
    if c == '{' {
        let mut j: usize = k + 1;
        while j < n && cs[j] != '}'
            invariant
                k + 1 <= j <= n,
                n == cs@.len(),
                close_brace_at(cs@, k + 1) == close_brace_at(cs@, j as int),
            decreases n - j,
        {
            j += 1;
        }
        if j >= n {
            string_push(out, '$');
            string_push(out, '{');
            push_chars(out, cs, k + 1, n);
            proof {
                assert(old(out)@.push('$').push('{') + cs@.subrange(k + 1, n as int)
                    =~= old(out)@ + (seq!['$', '{'] + cs@.subrange(k + 1, n as int)));
            }
            return n;
        }
        if j == k + 1 {
            return j + 1;
        }
        let name = string_of(cs, k + 1, j);
        push_named_parameter(&name, env, last_status, out);
        return j + 1;
    }
    if is_name_start(c) {
        let mut e: usize = k + 1;
        while e < n && is_name_continue(cs[e])
            invariant
                k + 1 <= e <= n,
                n == cs@.len(),
                name_end_at(cs@, k + 1) == name_end_at(cs@, e as int),
            decreases n - e,
        {
            e += 1;
        }
        let name = string_of(cs, k, e);
        push_named_parameter(&name, env, last_status, out);
        return e;
    }
    string_push(out, '$');
    k
}

/// Appends the value of a named parameter (`status` or a variable).
fn push_named_parameter(name: &String, env: &ShellEnvironment, last_status: u8, out: &mut String)
    ensures
        final(out)@ == old(out)@ + named_value(name@, *env, last_status),
{
    proof {
        reveal_strlit("status");
    }
    let status = String::from_str("status");
    assert(status@ =~= status_name());
    if *name == status {
        push_decimal(out, last_status);
        return;
    }
    match env.lookup(name) {
        Some(value) => crate::text::push_str(out, value.as_str()),
        None => {
            assert(old(out)@ + Seq::<char>::empty() =~= old(out)@);
        },
    }
}

} // verus!
