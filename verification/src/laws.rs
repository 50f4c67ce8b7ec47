//! Properties of the library as a whole, proved over the models that the
//! functions' contracts use.

use vstd::prelude::*;
use crate::env::ShellEnvironment;
use crate::expand::{lemma_close_brace_bounds, lemma_name_end_bounds, lemma_step_advances, close_brace_at, expand_from, expand_word, is_double_quote_escapable, is_name_continue_char, is_name_start_char, name_end_at, named_value, parameter, step, LexError, QuoteState};
use crate::text::{decimal, strip_line_endings};
use crate::ast::{CommandList, Pipeline, PipelineCommand};
use crate::heredoc::{take_outcome, command_heredocs, commands_heredocs, heredoc_words, hoist_front, list_heredocs, pipeline_heredocs, pipelines_heredocs};
use crate::command::{next, settle, ActionView, CommandResult, DispatchView, EventView, FrameView, Phase};
use crate::pipeline::{pipe_next, PipeActionView, PipeEvent, PipePhase, PipeView};
use crate::list::{list_next, ListAction, ListView};
use crate::stages::{staged_next, StagedActionView, StagedEvent, StagedPhase, StagedView, StageStdout, StdinModel, WaitResult};
use crate::redirect::{RedirectTargets, StdinTarget};
use crate::ast::{Redirect, RedirectKind};
use crate::redirect::{advance, redirect_next, HeredocView, RedirectActionView, RedirectEvent, RedirectPhase, RedirectView, StdinView};
use crate::process::exit_code_of;
use crate::cond::{all_digits, and_parts, and_test, binary_test, condition, digits_value, is_digit, is_short_option, or_parts, parse_i64, primary_test, split_words, unary_test, unsigned_part};
use crate::text::digit_char;

verus! {

/// A character that quoting, escaping or expansion treats specially.
pub open spec fn is_special(c: char) -> bool {
    c == '\'' || c == '"' || c == '\\' || c == '$'
}

proof fn lemma_plain_from(s: Seq<char>, i: int, env: ShellEnvironment, last_status: u8)
    requires
        0 <= i <= s.len(),
        forall|k: int| 0 <= k < s.len() ==> !is_special(#[trigger] s[k]),
    ensures
        expand_from(s, i, QuoteState::Normal, env, last_status) == (s.skip(i), QuoteState::Normal),
    decreases s.len() - i,
{
    if i < s.len() {
        lemma_plain_from(s, i + 1, env, last_status);
        assert(!is_special(s[i]));
        assert(seq![s[i]] + s.skip(i + 1) =~= s.skip(i));
    } else {
        assert(s.skip(i) =~= Seq::<char>::empty());
    }
}

/// A word without quotes, backslashes or `$` expands to itself.
pub proof fn lemma_plain_word_expands_to_itself(s: Seq<char>, env: ShellEnvironment, last_status: u8)
    requires
        forall|k: int| 0 <= k < s.len() ==> !is_special(#[trigger] s[k]),
    ensures
        expand_word(s, env, last_status) == Ok::<Seq<char>, LexError>(s),
{
    lemma_plain_from(s, 0, env, last_status);
    assert(s.skip(0) =~= s);
}

proof fn lemma_single_from(w: Seq<char>, t: Seq<char>, k: int, env: ShellEnvironment, last_status: u8)
    requires
        w == seq!['\''] + t + seq!['\''],
        0 <= k <= t.len(),
        forall|j: int| 0 <= j < t.len() ==> #[trigger] t[j] != '\'',
    ensures
        expand_from(w, 1 + k, QuoteState::Single, env, last_status) == (t.skip(k), QuoteState::Normal),
    decreases t.len() - k,
{
    if k < t.len() {
        assert(w[1 + k] == t[k]);
        lemma_single_from(w, t, k + 1, env, last_status);
        assert(seq![t[k]] + t.skip(k + 1) =~= t.skip(k));
    } else {
        assert(w[1 + k] == '\'');
        assert(t.skip(k) =~= Seq::<char>::empty());
        assert(expand_from(w, 2 + k, QuoteState::Normal, env, last_status) == (Seq::<char>::empty(), QuoteState::Normal));
    }
}

/// Text inside single quotes is taken literally: no escapes, no `$`.
pub proof fn lemma_single_quoted_is_literal(t: Seq<char>, env: ShellEnvironment, last_status: u8)
    requires
        forall|j: int| 0 <= j < t.len() ==> #[trigger] t[j] != '\'',
    ensures
        expand_word(seq!['\''] + t + seq!['\''], env, last_status) == Ok::<Seq<char>, LexError>(t),
{
    let w = seq!['\''] + t + seq!['\''];
    lemma_single_from(w, t, 0, env, last_status);
    assert(t.skip(0) =~= t);
    assert(w[0] == '\'');
    assert(expand_from(w, 0, QuoteState::Normal, env, last_status) == (Seq::<char>::empty() + t, QuoteState::Normal));
    assert(Seq::<char>::empty() + t =~= t);
}

proof fn lemma_single_open_from(w: Seq<char>, t: Seq<char>, k: int, env: ShellEnvironment, last_status: u8)
    requires
        w == seq!['\''] + t,
        0 <= k <= t.len(),
        forall|j: int| 0 <= j < t.len() ==> #[trigger] t[j] != '\'',
    ensures
        expand_from(w, 1 + k, QuoteState::Single, env, last_status).1 == QuoteState::Single,
    decreases t.len() - k,
{
    if k < t.len() {
        assert(w[1 + k] == t[k]);
        lemma_single_open_from(w, t, k + 1, env, last_status);
    }
}

/// A single quote that is never closed is an error.
pub proof fn lemma_unclosed_single_quote_fails(t: Seq<char>, env: ShellEnvironment, last_status: u8)
    requires
        forall|j: int| 0 <= j < t.len() ==> #[trigger] t[j] != '\'',
    ensures
        expand_word(seq!['\''] + t, env, last_status) == Err::<Seq<char>, LexError>(LexError::UnclosedQuote),
{
    let w = seq!['\''] + t;
    lemma_single_open_from(w, t, 0, env, last_status);
    assert(w[0] == '\'');
}

/// `$?` expands to the last status in decimal.
pub proof fn lemma_question_mark_is_last_status(env: ShellEnvironment, last_status: u8)
    ensures
        expand_word(seq!['$', '?'], env, last_status) == Ok::<Seq<char>, LexError>(decimal(last_status as nat)),
{
    let s = seq!['$', '?'];
    assert(parameter(s, 1, env, last_status) == (decimal(last_status as nat), 2int));
    assert(expand_from(s, 2, QuoteState::Normal, env, last_status) == (Seq::<char>::empty(), QuoteState::Normal));
    assert(decimal(last_status as nat) + Seq::<char>::empty() =~= decimal(last_status as nat));
}

/// A valid variable name: a letter or `_`, then letters, digits or `_`.
pub open spec fn is_name(name: Seq<char>) -> bool {
    &&& name.len() > 0
    &&& is_name_start_char(name[0])
    &&& forall|k: int| 0 <= k < name.len() ==> is_name_continue_char(#[trigger] name[k])
}

proof fn lemma_name_end_whole(s: Seq<char>, j: int)
    requires
        0 <= j <= s.len(),
        forall|k: int| j <= k < s.len() ==> is_name_continue_char(#[trigger] s[k]),
    ensures
        name_end_at(s, j) == s.len(),
    decreases s.len() - j,
{
    if j < s.len() {
        lemma_name_end_whole(s, j + 1);
    }
}

/// `$NAME` expands to the value of `NAME` (nothing when unset), and
/// `$status` to the last status.
pub proof fn lemma_dollar_name_is_its_value(name: Seq<char>, env: ShellEnvironment, last_status: u8)
    requires
        is_name(name),
    ensures
        expand_word(seq!['$'] + name, env, last_status)
            == Ok::<Seq<char>, LexError>(named_value(name, env, last_status)),
{
    let s = seq!['$'] + name;
    assert forall|k: int| 2 <= k < s.len() implies is_name_continue_char(#[trigger] s[k]) by {
        assert(s[k] == name[k - 1]);
    }
    lemma_name_end_whole(s, 2);
    assert(s[1] == name[0]);
    assert(s.subrange(1, s.len() as int) =~= name);
    assert(expand_from(s, s.len() as int, QuoteState::Normal, env, last_status) == (Seq::<char>::empty(), QuoteState::Normal));
    assert(named_value(name, env, last_status) + Seq::<char>::empty() =~= named_value(name, env, last_status));
}

proof fn lemma_close_brace_at_end(s: Seq<char>, j: int, c: int)
    requires
        0 <= j <= c < s.len(),
        s[c] == '}',
        forall|k: int| j <= k < c ==> #[trigger] s[k] != '}',
    ensures
        close_brace_at(s, j) == c,
    decreases c - j,
{
    if j < c {
        lemma_close_brace_at_end(s, j + 1, c);
    }
}

/// `${NAME}` expands like `$NAME` for any non-empty name without `}`.
pub proof fn lemma_braced_name_is_its_value(name: Seq<char>, env: ShellEnvironment, last_status: u8)
    requires
        name.len() > 0,
        forall|k: int| 0 <= k < name.len() ==> #[trigger] name[k] != '}',
    ensures
        expand_word(seq!['$', '{'] + name + seq!['}'], env, last_status)
            == Ok::<Seq<char>, LexError>(named_value(name, env, last_status)),
{
    let s = seq!['$', '{'] + name + seq!['}'];
    let c = s.len() - 1;
    assert forall|k: int| 2 <= k < c implies #[trigger] s[k] != '}' by {
        assert(s[k] == name[k - 2]);
    }
    lemma_close_brace_at_end(s, 2, c);
    assert(s.subrange(2, c) =~= name);
    assert(expand_from(s, s.len() as int, QuoteState::Normal, env, last_status) == (Seq::<char>::empty(), QuoteState::Normal));
    assert(named_value(name, env, last_status) + Seq::<char>::empty() =~= named_value(name, env, last_status));
}

/// `repeat 0 cmd` runs nothing and keeps the incoming status.
pub proof fn lemma_repeat_zero_keeps_status(v: DispatchView, argv: Seq<Seq<char>>)
    requires
        v.phase == Phase::Builtin,
        v.frames.len() == 0,
    ensures
        next(v, EventView::BuiltinRepeat { count: 0, argv }).1
            == ActionView::Finished(CommandResult::Status(v.last_status)),
{
    let pushed = DispatchView { source: v.source, mode: v.mode, argv: v.argv, last_status: v.last_status, phase: v.phase,
        frames: v.frames.push(FrameView { remaining: 0, argv }) };
    assert(pushed.frames.drop_last() =~= Seq::<FrameView>::empty());
    let popped = DispatchView { source: v.source, mode: v.mode, argv: v.argv, last_status: v.last_status, phase: v.phase,
        frames: pushed.frames.drop_last() };
    assert(settle(popped, CommandResult::Status(v.last_status)).1 == ActionView::Finished(CommandResult::Status(v.last_status)));
    assert(pushed.frames.last().remaining == 0);
    assert(settle(pushed, CommandResult::Status(v.last_status)) == settle(popped, CommandResult::Status(v.last_status)));
}

/// `exit` inside any number of `repeat` loops ends the whole command with
/// the same result.
pub proof fn lemma_exit_leaves_every_repeat(v: DispatchView, code: u8)
    ensures
        settle(v, CommandResult::Exit(code)).1 == ActionView::Finished(CommandResult::Exit(code)),
        settle(v, CommandResult::Exit(code)).0.phase == Phase::Done(CommandResult::Exit(code)),
    decreases v.frames.len(),
{
    if v.frames.len() > 0 {
        let popped = DispatchView { source: v.source, mode: v.mode, argv: v.argv, last_status: v.last_status, phase: v.phase, frames: v.frames.drop_last() };
        lemma_exit_leaves_every_repeat(popped, code);
    }
}

/// Inside a `repeat` with runs left, each run's status is the next run's
/// incoming status.
pub proof fn lemma_repeat_threads_status(v: DispatchView, s: u8)
    requires
        v.frames.len() > 0,
        v.frames.last().remaining > 0,
    ensures
        settle(v, CommandResult::Status(s)).1 == (ActionView::RunFunction { argv: v.frames.last().argv, last_status: s }),
{
}

/// A shell function that ran decides the result; builtins and programs are
/// not tried.
pub proof fn lemma_function_result_wins(v: DispatchView, r: CommandResult)
    requires
        v.phase == Phase::Function,
        v.frames.len() == 0,
    ensures
        next(v, EventView::Function(Some(r))).1 == ActionView::Finished(r),
{
}

/// A pipeline's status is its last stage's: the last child's when that is
/// a program, the builtin's when that is a builtin.
pub proof fn lemma_pipeline_status_is_last_stage(v: PipeView, waited: u8)
    requires
        v.phase is Wait,
    ensures
        pipe_next(v, PipeEvent::Waited(waited)).1 == PipeActionView::Finished(CommandResult::Status(
            match v.phase { PipePhase::Wait(Some(b)) => b, _ => waited },
        )),
{
}

/// In a pipeline of stages the status is the last stage's too: a last
/// builtin's status, or the status given to a last program that failed to
/// start, whatever waiting for the other children reports; the last
/// child's exit status when the last program started; and the result of a
/// last subshell stage.
pub proof fn lemma_staged_status_is_last_stage(v: StagedView, s: u8, w: u8, r: CommandResult)
    requires
        v.kinds.len() > 0,
        v.index == v.kinds.len() - 1,
        v.terminal is None,
    ensures
        v.phase is Builtin ==> ({
            let after = staged_next(v, StagedEvent::BuiltinDone(s));
            &&& after.1 == StagedActionView::Wait
            &&& staged_next(after.0, StagedEvent::Waited(WaitResult::Done(w))).1
                == (StagedActionView::End { kill: false, wait: false, result: CommandResult::Status(s) })
        }),
        v.phase is Spawn ==> ({
            let started = staged_next(v, StagedEvent::Spawned);
            let failed = staged_next(v, StagedEvent::SpawnFailed(s));
            &&& staged_next(started.0, StagedEvent::Waited(WaitResult::Done(w))).1
                == (StagedActionView::End { kill: false, wait: false, result: CommandResult::Status(w) })
            &&& staged_next(failed.0, StagedEvent::Waited(WaitResult::Done(w))).1
                == (StagedActionView::End { kill: false, wait: false, result: CommandResult::Status(s) })
        }),
        v.phase is Subshell ==> staged_next(v, StagedEvent::SubshellDone(r)).1
            == (StagedActionView::End { kill: false, wait: true, result: r }),
{
}

/// `exit` in a list ends it at once; otherwise the list's status is its
/// last pipeline's.
pub proof fn lemma_list_exit_and_status(v: ListView, r: CommandResult)
    requires
        !v.done,
    ensures
        r is Exit ==> list_next(v, r).1 == ListAction::Finished(r) && list_next(v, r).0.done,
        r is Status && v.index + 1 >= v.count ==> list_next(v, r).1 == ListAction::Finished(r),
{
}

/// Stripping line endings twice is stripping them once.
pub proof fn lemma_strip_line_endings_idempotent(s: Seq<char>)
    ensures
        strip_line_endings(strip_line_endings(s)) == strip_line_endings(s),
    decreases s.len(),
{
    if s.len() > 0 && (s.last() == '\n' || s.last() == '\r') {
        lemma_strip_line_endings_idempotent(s.drop_last());
    }
}

/// An exit code that fits in a byte is the shell status unchanged.
pub proof fn lemma_small_exit_code_kept(c: i32, signal: Option<i32>)
    requires
        0 <= c < 256,
    ensures
        exit_code_of(Some(c), signal) == c,
{
}

proof fn lemma_decimal_is_digits(n: nat)
    ensures
        decimal(n).len() > 0,
        all_digits(decimal(n)),
        digits_value(decimal(n)) == n,
    decreases n,
{
    if n < 10 {
        assert((digit_char(n) as nat) == n + 48);
        assert(decimal(n).drop_last() =~= Seq::<char>::empty());
        assert(digits_value(decimal(n)) == digits_value(Seq::<char>::empty()) * 10 + ((decimal(n).last() as nat) - 48) as nat);
    } else {
        lemma_decimal_is_digits(n / 10);
        let d = decimal(n / 10);
        assert((digit_char(n % 10) as nat) == n % 10 + 48);
        assert(decimal(n).drop_last() =~= d);
        assert(n / 10 * 10 + n % 10 == n);
        assert(decimal(n).last() == digit_char(n % 10));
        assert(digits_value(decimal(n)) == digits_value(d) * 10 + ((decimal(n).last() as nat) - 48) as nat);
        assert forall|k: int| 0 <= k < decimal(n).len() implies is_digit(#[trigger] decimal(n)[k]) by {
            if k < d.len() {
                assert(decimal(n)[k] == d[k]);
            }
        }
    }
}

/// A status rendered in decimal (as `$?` expands) parses back, as an
/// integer test reads it, to the same number.
pub proof fn lemma_status_text_parses_back(n: u8)
    ensures
        parse_i64(decimal(n as nat)) == Some(n as int),
{
    lemma_decimal_is_digits(n as nat);
    let s = decimal(n as nat);
    assert(is_digit(s[0]));
    assert(unsigned_part(s) == s);
}

proof fn lemma_split_plain(ts: Seq<Seq<char>>, sep: Seq<char>)
    requires
        forall|k: int| 0 <= k < ts.len() ==> #[trigger] ts[k] != sep,
    ensures
        split_words(ts, sep) == seq![ts],
    decreases ts.len(),
{
    if ts.len() > 0 {
        lemma_split_plain(ts.drop_last(), sep);
        assert(ts.last() != sep);
        assert(ts.drop_last().push(ts.last()) =~= ts);
        assert(seq![ts.drop_last()].update(0, ts.drop_last().push(ts.last())) =~= seq![ts]);
    } else {
        assert(ts =~= Seq::<Seq<char>>::empty());
    }
}

/// `[[ -z WORD ]]` holds exactly when the word is empty, and `[[ -n WORD ]]`
/// exactly when it is not.
pub proof fn lemma_empty_tests_are_complementary(x: Seq<char>, facts: Seq<(String, String, bool)>)
    requires
        x != "||"@,
        x != "&&"@,
    ensures
        condition(seq!["-z"@, x], facts) == Ok::<bool, Seq<char>>(x.len() == 0),
        condition(seq!["-n"@, x], facts) == Ok::<bool, Seq<char>>(x.len() != 0),
{
    reveal_strlit("-z");
    reveal_strlit("-n");
    reveal_strlit("||");
    reveal_strlit("&&");
    let z = seq!["-z"@, x];
    let n = seq!["-n"@, x];
    assert("-z"@[0] != "||"@[0] && "-z"@[0] != "&&"@[0]);
    assert("-n"@[0] != "||"@[0] && "-n"@[0] != "&&"@[0]);
    lemma_split_plain(z, "||"@);
    lemma_split_plain(z, "&&"@);
    lemma_split_plain(n, "||"@);
    lemma_split_plain(n, "&&"@);
    assert(seq![z].drop_first() =~= Seq::<Seq<Seq<char>>>::empty());
    assert(seq![n].drop_first() =~= Seq::<Seq<Seq<char>>>::empty());
    assert(is_short_option("-z"@));
    assert(is_short_option("-n"@));
    assert(unary_test("-z"@, x, facts) == Ok::<bool, Seq<char>>(x.len() == 0));
    assert(unary_test("-n"@, x, facts) == Ok::<bool, Seq<char>>(x.len() != 0));
    assert(primary_test(z, facts) == Ok::<bool, Seq<char>>(x.len() == 0));
    assert(primary_test(n, facts) == Ok::<bool, Seq<char>>(x.len() != 0));
    assert(and_parts(Seq::<Seq<Seq<char>>>::empty(), facts) == Ok::<bool, Seq<char>>(true));
    assert(or_parts(Seq::<Seq<Seq<char>>>::empty(), facts) == Ok::<bool, Seq<char>>(false));
    assert(seq![z][0] == z && seq![n][0] == n);
    assert(and_parts(seq![z], facts) == Ok::<bool, Seq<char>>(x.len() == 0));
    assert(and_parts(seq![n], facts) == Ok::<bool, Seq<char>>(x.len() != 0));
    assert(and_test(z, facts) == Ok::<bool, Seq<char>>(x.len() == 0));
    assert(and_test(n, facts) == Ok::<bool, Seq<char>>(x.len() != 0));
    assert(or_parts(seq![z], facts) == Ok::<bool, Seq<char>>(x.len() == 0));
    assert(or_parts(seq![n], facts) == Ok::<bool, Seq<char>>(x.len() != 0));
}

/// `[[ WORD = WORD ]]` holds for every word.
pub proof fn lemma_equality_test_is_reflexive(a: Seq<char>, facts: Seq<(String, String, bool)>)
    requires
        a != "||"@,
        a != "&&"@,
    ensures
        condition(seq![a, "="@, a], facts) == Ok::<bool, Seq<char>>(true),
{
    reveal_strlit("=");
    reveal_strlit("||");
    reveal_strlit("&&");
    let t = seq![a, "="@, a];
    assert("="@[0] != "||"@[0] && "="@[0] != "&&"@[0]);
    lemma_split_plain(t, "||"@);
    lemma_split_plain(t, "&&"@);
    assert(seq![t].drop_first() =~= Seq::<Seq<Seq<char>>>::empty());
    assert(binary_test(a, "="@, a) == Ok::<bool, Seq<char>>(true));
    assert(primary_test(t, facts) == Ok::<bool, Seq<char>>(true));
    assert(and_parts(Seq::<Seq<Seq<char>>>::empty(), facts) == Ok::<bool, Seq<char>>(true));
    assert(seq![t][0] == t);
    assert(and_parts(seq![t], facts) == Ok::<bool, Seq<char>>(true));
    assert(and_test(t, facts) == Ok::<bool, Seq<char>>(true));
    assert(or_parts(seq![t], facts) == Ok::<bool, Seq<char>>(true));
}

// ------------------------------------------------------ redirections

/// How many of `kinds[..i]` are heredocs.
pub open spec fn heredocs_before(kinds: Seq<RedirectKind>, i: int) -> int
    decreases i,
{
    if i <= 0 {
        0
    } else {
        heredocs_before(kinds, i - 1) + if kinds[i - 1] == RedirectKind::Heredoc { 1int } else { 0int }
    }
}

/// Standard input after `kinds[..i]` were applied with heredoc bodies
/// `bodies[first..]`: the last `<` or `<<` wins.
pub open spec fn input_after(kinds: Seq<RedirectKind>, i: int, bodies: Seq<Seq<char>>, first: int) -> Option<StdinView>
    decreases i,
{
    if i <= 0 {
        None
    } else if kinds[i - 1] == RedirectKind::Read {
        Some(StdinView::File(i - 1))
    } else if kinds[i - 1] == RedirectKind::Heredoc {
        Some(StdinView::Heredoc(bodies[first + heredocs_before(kinds, i - 1)]))
    } else {
        input_after(kinds, i - 1, bodies, first)
    }
}

/// Standard output after `kinds[..i]`: the last `>` or `>>` wins.
pub open spec fn output_after(kinds: Seq<RedirectKind>, i: int) -> Option<int>
    decreases i,
{
    if i <= 0 {
        None
    } else if kinds[i - 1] == RedirectKind::Write || kinds[i - 1] == RedirectKind::Append {
        Some(i - 1)
    } else {
        output_after(kinds, i - 1)
    }
}

/// A redirection run answered with success throughout: target word
/// `index` expands to `paths[index]` and every file opens, for at most
/// `fuel` answers.
pub open spec fn run_succeeding(v: RedirectView, hs: HeredocView, err: Seq<char>, a: RedirectActionView, paths: Seq<String>, fuel: nat) -> RedirectActionView
    decreases fuel,
{
    if fuel == 0 {
        a
    } else {
        match a {
            RedirectActionView::Resolve { index, raw: _ } => {
                let r = redirect_next(v, hs, err, RedirectEvent::Resolved(Ok(paths[index])));
                run_succeeding(r.0, r.1, r.2, r.3, paths, (fuel - 1) as nat)
            },
            RedirectActionView::Open { .. } => {
                let r = redirect_next(v, hs, err, RedirectEvent::Opened);
                run_succeeding(r.0, r.1, r.2, r.3, paths, (fuel - 1) as nat)
            },
            _ => a,
        }
    }
}

proof fn lemma_heredocs_before_grows(kinds: Seq<RedirectKind>, i: int, j: int)
    requires
        0 <= i <= j,
    ensures
        heredocs_before(kinds, i) <= heredocs_before(kinds, j),
    decreases j - i,
{
    if i < j {
        lemma_heredocs_before_grows(kinds, i, j - 1);
    }
}

/// What holds of a run that has applied `kinds[..i]` successfully.
pub open spec fn applied(v: RedirectView, hs: HeredocView, i: int, kinds: Seq<RedirectKind>, bodies: Seq<Seq<char>>, first: int) -> bool {
    &&& v.kinds == kinds
    &&& hs.0.len() == bodies.len()
    &&& hs.1 == first + heredocs_before(kinds, i)
    &&& forall|k: int| hs.1 <= k < bodies.len() ==> #[trigger] hs.0[k] == bodies[k]
    &&& v.stdin == input_after(kinds, i, bodies, first)
    &&& v.stdout == output_after(kinds, i)
}

proof fn lemma_advance_applies(v: RedirectView, i: int, hs: HeredocView, err: Seq<char>, bodies: Seq<Seq<char>>, first: int)
    requires
        0 <= i <= v.kinds.len(),
        0 <= first,
        applied(v, hs, i, v.kinds, bodies, first),
        first + heredocs_before(v.kinds, v.kinds.len() as int) <= bodies.len(),
    ensures
        ({
            let r = advance(v, i, hs, err);
            let n = v.kinds.len() as int;
            ||| r.3 == (RedirectActionView::Finished { stdin: input_after(v.kinds, n, bodies, first), stdout: output_after(v.kinds, n) })
            ||| {
                &&& r.0.phase == RedirectPhase::Resolve
                &&& i <= r.0.index < n
                &&& v.kinds[r.0.index] != RedirectKind::Heredoc
                &&& r.0.raws == v.raws
                &&& applied(r.0, r.1, r.0.index, v.kinds, bodies, first)
                &&& r.3 == (RedirectActionView::Resolve { index: r.0.index, raw: v.raws[r.0.index] })
            }
        }),
    decreases v.kinds.len() - i,
{
    let n = v.kinds.len() as int;
    if i < n && v.kinds[i] == RedirectKind::Heredoc {
        lemma_heredocs_before_grows(v.kinds, i + 1, n);
        assert(heredocs_before(v.kinds, i + 1) == heredocs_before(v.kinds, i) + 1);
        let next = RedirectView { kinds: v.kinds, raws: v.raws, index: i, phase: RedirectPhase::Resolve, path: v.path,
            stdin: Some(StdinView::Heredoc(hs.0[hs.1 as int])), stdout: v.stdout, failed: v.failed };
        let hs2: HeredocView = (hs.0.update(hs.1 as int, Seq::empty()), hs.1 + 1);
        assert(hs.0[hs.1 as int] == bodies[hs.1 as int]);
        assert(applied(next, hs2, i + 1, v.kinds, bodies, first)) by {
            assert forall|k: int| hs2.1 <= k < bodies.len() implies #[trigger] hs2.0[k] == bodies[k] by {
                assert(hs.0[k] == bodies[k]);
            }
        }
        lemma_advance_applies(next, i + 1, hs2, err, bodies, first);
    }
}

proof fn lemma_succeeding_from(v: RedirectView, hs: HeredocView, err: Seq<char>, paths: Seq<String>, fuel: nat, bodies: Seq<Seq<char>>, first: int)
    requires
        v.phase == RedirectPhase::Resolve,
        0 <= v.index < v.kinds.len(),
        0 <= first,
        v.kinds[v.index] != RedirectKind::Heredoc,
        applied(v, hs, v.index, v.kinds, bodies, first),
        first + heredocs_before(v.kinds, v.kinds.len() as int) <= bodies.len(),
        fuel >= 2 * (v.kinds.len() - v.index),
    ensures
        run_succeeding(v, hs, err, RedirectActionView::Resolve { index: v.index, raw: v.raws[v.index] }, paths, fuel)
            == (RedirectActionView::Finished { stdin: input_after(v.kinds, v.kinds.len() as int, bodies, first), stdout: output_after(v.kinds, v.kinds.len() as int) }),
    decreases v.kinds.len() - v.index,
{
    let j = v.index;
    let n = v.kinds.len() as int;
    let p = paths[j];
    let r1 = redirect_next(v, hs, err, RedirectEvent::Resolved(Ok(p)));
    let v1 = r1.0;
    assert(v1.phase == RedirectPhase::Open && v1.index == j && v1.kinds == v.kinds);
    let r2 = redirect_next(v1, r1.1, r1.2, RedirectEvent::Opened);
    let assigned = if v.kinds[j] == RedirectKind::Read {
        RedirectView { kinds: v1.kinds, raws: v1.raws, index: j, phase: v1.phase, path: v1.path,
            stdin: Some(StdinView::File(j)), stdout: v1.stdout, failed: v1.failed }
    } else {
        RedirectView { kinds: v1.kinds, raws: v1.raws, index: j, phase: v1.phase, path: v1.path,
            stdin: v1.stdin, stdout: Some(j), failed: v1.failed }
    };
    assert(r2 == advance(assigned, j + 1, hs, err));
    assert(heredocs_before(v.kinds, j + 1) == heredocs_before(v.kinds, j));
    assert(applied(assigned, hs, j + 1, v.kinds, bodies, first));
    lemma_advance_applies(assigned, j + 1, hs, err, bodies, first);
    assert(run_succeeding(v, hs, err, RedirectActionView::Resolve { index: j, raw: v.raws[j] }, paths, fuel)
        == run_succeeding(r2.0, r2.1, r2.2, r2.3, paths, (fuel - 2) as nat)) by {
        assert(r1.3 == (RedirectActionView::Open { index: j, kind: v.kinds[j], path: p@ }));
        assert(run_succeeding(v1, r1.1, r1.2, r1.3, paths, (fuel - 1) as nat)
            == run_succeeding(r2.0, r2.1, r2.2, r2.3, paths, (fuel - 2) as nat));
    }
    if r2.3 is Resolve {
        lemma_succeeding_from(r2.0, r2.1, r2.2, paths, (fuel - 2) as nat, bodies, first);
    } else {
        assert(run_succeeding(r2.0, r2.1, r2.2, r2.3, paths, (fuel - 2) as nat) == r2.3) by {
            reveal_with_fuel(run_succeeding, 2);
        }
    }
}

/// Redirections apply left to right and a later one on the same stream
/// overrides an earlier one: when every target expands and opens and
/// enough heredoc bodies were collected, standard input comes from the
/// last `<` (its file) or `<<` (its body, the next one not yet taken as
/// counted from the left), and standard output goes to the last `>` or
/// `>>`.
pub proof fn lemma_later_redirect_overrides(redirects: Seq<Redirect>, bodies: Seq<Seq<char>>, first: nat, err: Seq<char>, paths: Seq<String>)
    requires
        first + heredocs_before(redirects.map_values(|x: Redirect| x.kind), redirects.len() as int) <= bodies.len(),
        paths.len() == redirects.len(),
    ensures
        ({
            let kinds = redirects.map_values(|x: Redirect| x.kind);
            let v = RedirectView {
                kinds,
                raws: redirects.map_values(|x: Redirect| x.path@),
                index: 0,
                phase: if redirects.len() == 0 { RedirectPhase::Done } else { RedirectPhase::Resolve },
                path: Seq::empty(),
                stdin: None,
                stdout: None,
                failed: None,
            };
            let a = advance(v, 0, (bodies, first), err);
            run_succeeding(a.0, a.1, a.2, a.3, paths, (2 * redirects.len()) as nat)
                == (RedirectActionView::Finished {
                    stdin: input_after(kinds, redirects.len() as int, bodies, first as int),
                    stdout: output_after(kinds, redirects.len() as int),
                })
        }),
{
    let kinds = redirects.map_values(|x: Redirect| x.kind);
    let n = redirects.len() as int;
    let v = RedirectView {
        kinds,
        raws: redirects.map_values(|x: Redirect| x.path@),
        index: 0,
        phase: if redirects.len() == 0 { RedirectPhase::Done } else { RedirectPhase::Resolve },
        path: Seq::empty(),
        stdin: None,
        stdout: None,
        failed: None,
    };
    let hs: HeredocView = (bodies, first);
    assert(applied(v, hs, 0, kinds, bodies, first as int));
    lemma_advance_applies(v, 0, hs, err, bodies, first as int);
    let a = advance(v, 0, hs, err);
    if a.3 is Resolve {
        lemma_succeeding_from(a.0, a.1, a.2, paths, (2 * redirects.len()) as nat, bodies, first as int);
    } else {
        assert(run_succeeding(a.0, a.1, a.2, a.3, paths, (2 * redirects.len()) as nat) == a.3) by {
            reveal_with_fuel(run_succeeding, 2);
        }
    }
}

// ------------------------------------------------- expansion of suffixes

proof fn lemma_close_brace_shift(p: Seq<char>, t: Seq<char>, j: int)
    requires
        0 <= j,
    ensures
        close_brace_at(p + t, p.len() + j) == p.len() + close_brace_at(t, j),
    decreases t.len() - j,
{
    let w = p + t;
    if j < t.len() {
        assert(w[p.len() + j] == t[j]);
        if t[j] != '}' {
            lemma_close_brace_shift(p, t, j + 1);
        }
    }
}

proof fn lemma_name_end_shift(p: Seq<char>, t: Seq<char>, j: int)
    requires
        0 <= j,
    ensures
        name_end_at(p + t, p.len() + j) == p.len() + name_end_at(t, j),
    decreases t.len() - j,
{
    let w = p + t;
    if j < t.len() {
        assert(w[p.len() + j] == t[j]);
        if is_name_continue_char(t[j]) {
            lemma_name_end_shift(p, t, j + 1);
        }
    }
}

proof fn lemma_parameter_shift(p: Seq<char>, t: Seq<char>, k: int, env: ShellEnvironment, last_status: u8)
    requires
        0 <= k,
    ensures
        parameter(p + t, p.len() + k, env, last_status)
            == (parameter(t, k, env, last_status).0, p.len() + parameter(t, k, env, last_status).1),
{
    let w = p + t;
    let n = p.len() as int;
    if k < t.len() {
        assert(w[n + k] == t[k]);
        if t[k] == '{' {
            lemma_close_brace_shift(p, t, k + 1);
            let c = close_brace_at(t, k + 1);
            lemma_close_brace_bounds(t, k + 1);
            assert(w.subrange(n + k + 1, w.len() as int) =~= t.subrange(k + 1, t.len() as int));
            if c < t.len() {
                assert(w.subrange(n + k + 1, n + c) =~= t.subrange(k + 1, c));
            }
        } else if is_name_start_char(t[k]) {
            lemma_name_end_shift(p, t, k + 1);
            let e = name_end_at(t, k + 1);
            lemma_name_end_bounds(t, k + 1);
            assert(w.subrange(n + k, n + e) =~= t.subrange(k, e));
        }
    }
}

proof fn lemma_step_shift(p: Seq<char>, t: Seq<char>, i: int, st: QuoteState, env: ShellEnvironment, last_status: u8)
    requires
        0 <= i < t.len(),
    ensures
        ({
            let a = step(p + t, p.len() + i, st, env, last_status);
            let b = step(t, i, st, env, last_status);
            a == (b.0, p.len() + b.1, b.2)
        }),
{
    let w = p + t;
    let n = p.len() as int;
    assert(w[n + i] == t[i]);
    if i + 1 < t.len() {
        assert(w[n + i + 1] == t[i + 1]);
    }
    lemma_parameter_shift(p, t, i + 1, env, last_status);
}

/// Expanding a word from inside it depends only on what follows.
proof fn lemma_expand_from_shift(p: Seq<char>, t: Seq<char>, i: int, st: QuoteState, env: ShellEnvironment, last_status: u8)
    requires
        0 <= i,
    ensures
        expand_from(p + t, p.len() + i, st, env, last_status) == expand_from(t, i, st, env, last_status),
    decreases t.len() - i,
{
    if i < t.len() {
        lemma_step_shift(p, t, i, st, env, last_status);
        lemma_step_advances(t, i, st, env, last_status);
        let b = step(t, i, st, env, last_status);
        lemma_expand_from_shift(p, t, b.1, b.2, env, last_status);
    }
}

/// Outside quotes a backslash makes the next character literal, so `\$`
/// is a dollar sign and not an expansion; inside double quotes it does so
/// for `"`, `\`, `$`, `` ` `` and newline, and is kept in front of any
/// other character.
pub proof fn lemma_backslash_escapes(c: char, t: Seq<char>, env: ShellEnvironment, last_status: u8)
    ensures
        ({
            let w = seq!['\\', c] + t;
            let normal = expand_from(t, 0, QuoteState::Normal, env, last_status);
            let double = expand_from(t, 0, QuoteState::Double, env, last_status);
            &&& expand_from(w, 0, QuoteState::Normal, env, last_status) == (seq![c] + normal.0, normal.1)
            &&& is_double_quote_escapable(c) ==> expand_from(w, 0, QuoteState::Double, env, last_status) == (seq![c] + double.0, double.1)
            &&& !is_double_quote_escapable(c) ==> expand_from(w, 0, QuoteState::Double, env, last_status) == (seq!['\\', c] + double.0, double.1)
        }),
{
    let p = seq!['\\', c];
    let w = p + t;
    assert(w[0] == '\\' && w[1] == c);
    lemma_expand_from_shift(p, t, 0, QuoteState::Normal, env, last_status);
    lemma_expand_from_shift(p, t, 0, QuoteState::Double, env, last_status);
    assert(step(w, 0, QuoteState::Normal, env, last_status) == (seq![c], 2int, QuoteState::Normal));
}

// ------------------------------------------------ heredoc pairing

/// The `<<` words of a stage in the order a run opens them: a group's own
/// redirections are opened before its list runs.
pub open spec fn run_command_words(c: PipelineCommand) -> Seq<Seq<char>>
    decreases c,
{
    match c {
        PipelineCommand::Simple(s) => heredoc_words(s.redirects@),
        PipelineCommand::Subshell { list, redirects } => heredoc_words(redirects@) + run_list_words(list),
    }
}

pub open spec fn run_commands_words(cs: Seq<PipelineCommand>) -> Seq<Seq<char>>
    decreases cs,
{
    if cs.len() == 0 {
        Seq::empty()
    } else {
        run_commands_words(cs.drop_last()) + run_command_words(cs.last())
    }
}

/// A background pipeline hands its bodies to a script in source order.
pub open spec fn run_pipeline_words(p: Pipeline) -> Seq<Seq<char>>
    decreases p,
{
    if p.background {
        pipeline_heredocs(p)
    } else {
        run_commands_words(p.commands@)
    }
}

pub open spec fn run_pipelines_words(ps: Seq<Pipeline>) -> Seq<Seq<char>>
    decreases ps,
{
    if ps.len() == 0 {
        Seq::empty()
    } else {
        run_pipelines_words(ps.drop_last()) + run_pipeline_words(ps.last())
    }
}

/// The `<<` words of a list in the order a run opens them.
pub open spec fn run_list_words(l: CommandList) -> Seq<Seq<char>>
    decreases l,
{
    run_pipelines_words(l.pipelines@)
}

/// The bodies a stage takes from the remaining ones `r` when it runs
/// (a group first moves its own bodies to the front, see
/// `HeredocState::enter_group`), and what remains after it.
pub open spec fn served_command<T>(c: PipelineCommand, r: Seq<T>) -> (Seq<T>, Seq<T>)
    decreases c,
{
    match c {
        PipelineCommand::Simple(s) => {
            let k = heredoc_words(s.redirects@).len() as int;
            (r.take(k), r.skip(k))
        },
        PipelineCommand::Subshell { list, redirects } => {
            let own = heredoc_words(redirects@).len() as int;
            let h = hoist_front(r, list_heredocs(list).len() as int, own);
            let inner = served_list(list, h.skip(own));
            (h.take(own) + inner.0, inner.1)
        },
    }
}

pub open spec fn served_commands<T>(cs: Seq<PipelineCommand>, r: Seq<T>) -> (Seq<T>, Seq<T>)
    decreases cs,
{
    if cs.len() == 0 {
        (Seq::empty(), r)
    } else {
        let a = served_commands(cs.drop_last(), r);
        let b = served_command(cs.last(), a.1);
        (a.0 + b.0, b.1)
    }
}

pub open spec fn served_pipeline<T>(p: Pipeline, r: Seq<T>) -> (Seq<T>, Seq<T>)
    decreases p,
{
    if p.background {
        let k = pipeline_heredocs(p).len() as int;
        (r.take(k), r.skip(k))
    } else {
        served_commands(p.commands@, r)
    }
}

pub open spec fn served_pipelines<T>(ps: Seq<Pipeline>, r: Seq<T>) -> (Seq<T>, Seq<T>)
    decreases ps,
{
    if ps.len() == 0 {
        (Seq::empty(), r)
    } else {
        let a = served_pipelines(ps.drop_last(), r);
        let b = served_pipeline(ps.last(), a.1);
        (a.0 + b.0, b.1)
    }
}

/// The bodies a list's run takes, in order, from the remaining ones `r`.
pub open spec fn served_list<T>(l: CommandList, r: Seq<T>) -> (Seq<T>, Seq<T>)
    decreases l,
{
    served_pipelines(l.pipelines@, r)
}

/// Rearranges a stage's items from source order into run order.
pub open spec fn reorder_command<T>(c: PipelineCommand, s: Seq<T>) -> Seq<T>
    decreases c,
{
    match c {
        PipelineCommand::Simple(_) => s,
        PipelineCommand::Subshell { list, redirects: _ } => {
            let inner = list_heredocs(list).len() as int;
            s.skip(inner) + reorder_list(list, s.take(inner))
        },
    }
}

pub open spec fn reorder_commands<T>(cs: Seq<PipelineCommand>, s: Seq<T>) -> Seq<T>
    decreases cs,
{
    if cs.len() == 0 {
        Seq::empty()
    } else {
        let k = commands_heredocs(cs.drop_last()).len() as int;
        reorder_commands(cs.drop_last(), s.take(k)) + reorder_command(cs.last(), s.skip(k))
    }
}

pub open spec fn reorder_pipeline<T>(p: Pipeline, s: Seq<T>) -> Seq<T>
    decreases p,
{
    if p.background {
        s
    } else {
        reorder_commands(p.commands@, s)
    }
}

pub open spec fn reorder_pipelines<T>(ps: Seq<Pipeline>, s: Seq<T>) -> Seq<T>
    decreases ps,
{
    if ps.len() == 0 {
        Seq::empty()
    } else {
        let k = pipelines_heredocs(ps.drop_last()).len() as int;
        reorder_pipelines(ps.drop_last(), s.take(k)) + reorder_pipeline(ps.last(), s.skip(k))
    }
}

/// Rearranges a list's items from source order (one per `<<`) into the
/// order its run meets them.
pub open spec fn reorder_list<T>(l: CommandList, s: Seq<T>) -> Seq<T>
    decreases l,
{
    reorder_pipelines(l.pipelines@, s)
}

proof fn lemma_run_command_words(c: PipelineCommand)
    ensures
        run_command_words(c) == reorder_command(c, command_heredocs(c)),
    decreases c,
{
    match c {
        PipelineCommand::Simple(_) => {},
        PipelineCommand::Subshell { list, redirects } => {
            lemma_run_list_words(list);
            let s = command_heredocs(c);
            let inner = list_heredocs(list).len() as int;
            assert(s.skip(inner) =~= heredoc_words(redirects@));
            assert(s.take(inner) =~= list_heredocs(list));
        },
    }
}

proof fn lemma_run_commands_words(cs: Seq<PipelineCommand>)
    ensures
        run_commands_words(cs) == reorder_commands(cs, commands_heredocs(cs)),
    decreases cs,
{
    if cs.len() > 0 {
        lemma_run_commands_words(cs.drop_last());
        lemma_run_command_words(cs.last());
        let s = commands_heredocs(cs);
        let k = commands_heredocs(cs.drop_last()).len() as int;
        assert(s.take(k) =~= commands_heredocs(cs.drop_last()));
        assert(s.skip(k) =~= command_heredocs(cs.last()));
    }
}

proof fn lemma_run_pipeline_words(p: Pipeline)
    ensures
        run_pipeline_words(p) == reorder_pipeline(p, pipeline_heredocs(p)),
    decreases p,
{
    lemma_run_commands_words(p.commands@);
}

proof fn lemma_run_pipelines_words(ps: Seq<Pipeline>)
    ensures
        run_pipelines_words(ps) == reorder_pipelines(ps, pipelines_heredocs(ps)),
    decreases ps,
{
    if ps.len() > 0 {
        lemma_run_pipelines_words(ps.drop_last());
        lemma_run_pipeline_words(ps.last());
        let s = pipelines_heredocs(ps);
        let k = pipelines_heredocs(ps.drop_last()).len() as int;
        assert(s.take(k) =~= pipelines_heredocs(ps.drop_last()));
        assert(s.skip(k) =~= pipeline_heredocs(ps.last()));
    }
}

proof fn lemma_run_list_words(l: CommandList)
    ensures
        run_list_words(l) == reorder_list(l, list_heredocs(l)),
    decreases l,
{
    lemma_run_pipelines_words(l.pipelines@);
}

proof fn lemma_served_command<T>(c: PipelineCommand, r: Seq<T>)
    requires
        command_heredocs(c).len() <= r.len(),
    ensures
        served_command(c, r) == (reorder_command(c, r.take(command_heredocs(c).len() as int)), r.skip(command_heredocs(c).len() as int)),
    decreases c,
{
    match c {
        PipelineCommand::Simple(_) => {},
        PipelineCommand::Subshell { list, redirects } => {
            let inner = list_heredocs(list).len() as int;
            let own = heredoc_words(redirects@).len() as int;
            let h = hoist_front(r, inner, own);
            let rest = h.skip(own);
            assert(h.take(own) =~= r.subrange(inner, inner + own));
            assert(rest =~= r.take(inner) + r.skip(inner + own));
            lemma_served_list(list, rest);
            assert(rest.take(inner) =~= r.take(inner));
            assert(rest.skip(inner) =~= r.skip(inner + own));
            let s = r.take(inner + own);
            assert(s.skip(inner) =~= r.subrange(inner, inner + own));
            assert(s.take(inner) =~= r.take(inner));
        },
    }
}

proof fn lemma_served_commands<T>(cs: Seq<PipelineCommand>, r: Seq<T>)
    requires
        commands_heredocs(cs).len() <= r.len(),
    ensures
        served_commands(cs, r) == (reorder_commands(cs, r.take(commands_heredocs(cs).len() as int)), r.skip(commands_heredocs(cs).len() as int)),
    decreases cs,
{
    if cs.len() == 0 {
        assert(r.skip(0) =~= r);
    } else {
        let k = commands_heredocs(cs.drop_last()).len() as int;
        let m = command_heredocs(cs.last()).len() as int;
        lemma_served_commands(cs.drop_last(), r);
        lemma_served_command(cs.last(), r.skip(k));
        let s = r.take(k + m);
        assert(s.take(k) =~= r.take(k));
        assert(s.skip(k) =~= r.skip(k).take(m));
        assert(r.skip(k).skip(m) =~= r.skip(k + m));
    }
}

proof fn lemma_served_pipeline<T>(p: Pipeline, r: Seq<T>)
    requires
        pipeline_heredocs(p).len() <= r.len(),
    ensures
        served_pipeline(p, r) == (reorder_pipeline(p, r.take(pipeline_heredocs(p).len() as int)), r.skip(pipeline_heredocs(p).len() as int)),
    decreases p,
{
    if !p.background {
        lemma_served_commands(p.commands@, r);
    }
}

proof fn lemma_served_pipelines<T>(ps: Seq<Pipeline>, r: Seq<T>)
    requires
        pipelines_heredocs(ps).len() <= r.len(),
    ensures
        served_pipelines(ps, r) == (reorder_pipelines(ps, r.take(pipelines_heredocs(ps).len() as int)), r.skip(pipelines_heredocs(ps).len() as int)),
    decreases ps,
{
    if ps.len() == 0 {
        assert(r.skip(0) =~= r);
    } else {
        let k = pipelines_heredocs(ps.drop_last()).len() as int;
        let m = pipeline_heredocs(ps.last()).len() as int;
        lemma_served_pipelines(ps.drop_last(), r);
        lemma_served_pipeline(ps.last(), r.skip(k));
        let s = r.take(k + m);
        assert(s.take(k) =~= r.take(k));
        assert(s.skip(k) =~= r.skip(k).take(m));
        assert(r.skip(k).skip(m) =~= r.skip(k + m));
    }
}

proof fn lemma_served_list<T>(l: CommandList, r: Seq<T>)
    requires
        list_heredocs(l).len() <= r.len(),
    ensures
        served_list(l, r) == (reorder_list(l, r.take(list_heredocs(l).len() as int)), r.skip(list_heredocs(l).len() as int)),
    decreases l,
{
    lemma_served_pipelines(l.pipelines@, r);
}

/// Each `<<` receives the body collected for it. Bodies are collected in
/// source order (`list_heredocs`); a run opens the `<<` words in its own
/// order (`run_list_words`: a group's redirections before its list) and
/// takes bodies from the cursor (`served_list`: a group moving its own
/// bodies to the front on entry). Both orders are the source order
/// rearranged by the same `reorder_list`, so the k-th `<<` the run opens
/// takes the body collected for that same `<<`; no body is left over.
pub proof fn lemma_heredoc_bodies_pair_with_their_words(l: CommandList, bodies: Seq<Seq<char>>)
    requires
        bodies.len() == list_heredocs(l).len(),
    ensures
        run_list_words(l) == reorder_list(l, list_heredocs(l)),
        served_list(l, bodies) == (reorder_list(l, bodies), Seq::<Seq<char>>::empty()),
{
    lemma_run_list_words(l);
    lemma_served_list(l, bodies);
    assert(bodies.take(bodies.len() as int) =~= bodies);
    assert(bodies.skip(bodies.len() as int) =~= Seq::<Seq<char>>::empty());
}

// ------------------------------------------------ more laws

/// How many of `ts` equal `sep`.
pub open spec fn count_of(ts: Seq<Seq<char>>, sep: Seq<char>) -> nat
    decreases ts.len(),
{
    if ts.len() == 0 {
        0
    } else {
        count_of(ts.drop_last(), sep) + if ts.last() == sep { 1nat } else { 0nat }
    }
}

/// The parts joined back with `sep` between each two.
pub open spec fn join_parts(parts: Seq<Seq<Seq<char>>>, sep: Seq<char>) -> Seq<Seq<char>>
    decreases parts.len(),
{
    if parts.len() == 0 {
        Seq::empty()
    } else if parts.len() == 1 {
        parts[0]
    } else {
        join_parts(parts.drop_last(), sep) + seq![sep] + parts.last()
    }
}

proof fn lemma_join_extend_last(parts: Seq<Seq<Seq<char>>>, sep: Seq<char>, t: Seq<char>)
    requires
        parts.len() >= 1,
    ensures
        join_parts(parts.update(parts.len() - 1, parts.last().push(t)), sep) == join_parts(parts, sep).push(t),
{
    let q = parts.update(parts.len() - 1, parts.last().push(t));
    if parts.len() > 1 {
        assert(q.drop_last() =~= parts.drop_last());
        assert(join_parts(q, sep) =~= join_parts(parts, sep).push(t));
    }
}

/// Splitting `[[` words at a separator gives one more part than there are
/// separators, no part holds the separator, and joining the parts back
/// with it gives the words again.
pub proof fn lemma_split_words_partitions(ts: Seq<Seq<char>>, sep: Seq<char>)
    ensures
        split_words(ts, sep).len() == 1 + count_of(ts, sep),
        forall|i: int, j: int| 0 <= i < split_words(ts, sep).len() && 0 <= j < split_words(ts, sep)[i].len()
            ==> #[trigger] split_words(ts, sep)[i][j] != sep,
        join_parts(split_words(ts, sep), sep) == ts,
    decreases ts.len(),
{
    if ts.len() == 0 {
        assert(join_parts(seq![Seq::<Seq<char>>::empty()], sep) == Seq::<Seq<char>>::empty());
    } else {
        let init = ts.drop_last();
        lemma_split_words_partitions(init, sep);
        let p = split_words(init, sep);
        if ts.last() == sep {
            assert(p.push(Seq::empty()).drop_last() =~= p);
            assert(join_parts(p.push(Seq::empty()), sep) =~= init + seq![sep]);
            assert(init + seq![sep] =~= ts);
        } else {
            lemma_join_extend_last(p, sep, ts.last());
            assert(init.push(ts.last()) =~= ts);
            let q = split_words(ts, sep);
            assert forall|i: int, j: int| 0 <= i < q.len() && 0 <= j < q[i].len() implies #[trigger] q[i][j] != sep by {
                if i == q.len() - 1 && j == q[i].len() - 1 {
                } else if i == q.len() - 1 {
                    assert(q[i][j] == p[i][j]);
                }
            }
        }
    }
}

/// Expanding a word whose start has no `$` and no `\` and closes every
/// quote it opens is expanding that start, then the rest.
pub proof fn lemma_plain_prefix_composes(a: Seq<char>, b: Seq<char>, env: ShellEnvironment, last_status: u8)
    requires
        forall|k: int| 0 <= k < a.len() ==> #[trigger] a[k] != '$' && a[k] != '\\',
        expand_word(a, env, last_status) is Ok,
    ensures
        expand_word(a + b, env, last_status) == match expand_word(b, env, last_status) {
            Ok(t) => Ok::<Seq<char>, LexError>(expand_word(a, env, last_status)->Ok_0 + t),
            Err(e) => Err::<Seq<char>, LexError>(e),
        },
{
    lemma_plain_prefix_from(a, b, 0, QuoteState::Normal, env, last_status);
    let ea = expand_from(a, 0, QuoteState::Normal, env, last_status);
    let eb = expand_from(b, 0, QuoteState::Normal, env, last_status);
    assert(ea.1 == QuoteState::Normal);
}

proof fn lemma_plain_prefix_from(a: Seq<char>, b: Seq<char>, i: int, st: QuoteState, env: ShellEnvironment, last_status: u8)
    requires
        0 <= i <= a.len(),
        forall|k: int| 0 <= k < a.len() ==> #[trigger] a[k] != '$' && a[k] != '\\',
    ensures
        ({
            let ea = expand_from(a, i, st, env, last_status);
            let eb = expand_from(b, 0, ea.1, env, last_status);
            expand_from(a + b, i, st, env, last_status) == (ea.0 + eb.0, eb.1)
        }),
    decreases a.len() - i,
{
    let w = a + b;
    if i == a.len() {
        lemma_expand_from_shift(a, b, 0, st, env, last_status);
        let eb = expand_from(b, 0, st, env, last_status);
        assert(Seq::<char>::empty() + eb.0 =~= eb.0);
    } else {
        assert(w[i] == a[i]);
        assert(a[i] != '$' && a[i] != '\\');
        let sa = step(a, i, st, env, last_status);
        assert(step(w, i, st, env, last_status) == sa);
        assert(sa.1 == i + 1);
        lemma_plain_prefix_from(a, b, i + 1, sa.2, env, last_status);
        let ea = expand_from(a, i + 1, sa.2, env, last_status);
        let eb = expand_from(b, 0, ea.1, env, last_status);
        assert(sa.0 + (ea.0 + eb.0) =~= (sa.0 + ea.0) + eb.0);
    }
}

/// `k` successive `take_next` calls from bodies `b` at cursor `i`: the
/// results in order, the bodies and cursor after, and the text written.
pub open spec fn takes(b: Seq<Seq<char>>, i: nat, k: nat) -> (Seq<Result<Seq<char>, u8>>, Seq<Seq<char>>, nat, Seq<char>)
    decreases k,
{
    if k == 0 {
        (Seq::empty(), b, i, Seq::empty())
    } else {
        let before = takes(b, i, (k - 1) as nat);
        let o = take_outcome(before.1, before.2);
        (before.0.push(o.0), o.1, o.2, before.3 + o.3)
    }
}

/// Taking `k` bodies when that many are left hands out the next `k`
/// bodies in order, moves the cursor past them and writes nothing.
pub proof fn lemma_takes_hand_out_in_order(b: Seq<Seq<char>>, i: nat, k: nat)
    requires
        i + k <= b.len(),
    ensures
        takes(b, i, k).0 == Seq::new(k, |j: int| Ok::<Seq<char>, u8>(b[i + j])),
        takes(b, i, k).2 == i + k,
        takes(b, i, k).3 == Seq::<char>::empty(),
        takes(b, i, k).1.len() == b.len(),
        forall|j: int| i + k <= j < b.len() ==> #[trigger] takes(b, i, k).1[j] == b[j],
    decreases k,
{
    if k > 0 {
        lemma_takes_hand_out_in_order(b, i, (k - 1) as nat);
        let before = takes(b, i, (k - 1) as nat);
        assert(before.1[i + k - 1] == b[i + k - 1]);
        assert(takes(b, i, k).0 =~= Seq::new(k, |j: int| Ok::<Seq<char>, u8>(b[i + j])));
        assert(before.3 + Seq::<char>::empty() =~= Seq::<char>::empty());
    }
}

// ------------------------------------------------ integer tests

/// The usual decimal text of an integer: a `-` for a negative one, then
/// its digits.
pub open spec fn int_text(x: int) -> Seq<char> {
    if x < 0 {
        seq!['-'] + decimal((-x) as nat)
    } else {
        decimal(x as nat)
    }
}

proof fn lemma_int_text_parses(x: int)
    requires
        i64::MIN <= x <= i64::MAX,
    ensures
        parse_i64(int_text(x)) == Some(x),
{
    if x < 0 {
        let d = decimal((-x) as nat);
        lemma_decimal_is_digits((-x) as nat);
        let s = int_text(x);
        assert(s[0] == '-');
        assert(unsigned_part(s) =~= d);
    } else {
        lemma_decimal_is_digits(x as nat);
        let s = decimal(x as nat);
        assert(is_digit(s[0]));
        assert(unsigned_part(s) == s);
    }
}

/// `[[ a OP b ]]` on integers compares their values: `-eq`, `-ne`, `-lt`,
/// `-le`, `-gt`, `-ge` are `=`, `≠`, `<`, `≤`, `>`, `≥` of the numbers the
/// words are written as (so `n -gt n` is false, `n -ge n` true).
pub proof fn lemma_integer_tests_compare_values(x: int, y: int)
    requires
        i64::MIN <= x <= i64::MAX,
        i64::MIN <= y <= i64::MAX,
    ensures
        binary_test(int_text(x), "-eq"@, int_text(y)) == Ok::<bool, Seq<char>>(x == y),
        binary_test(int_text(x), "-ne"@, int_text(y)) == Ok::<bool, Seq<char>>(x != y),
        binary_test(int_text(x), "-lt"@, int_text(y)) == Ok::<bool, Seq<char>>(x < y),
        binary_test(int_text(x), "-le"@, int_text(y)) == Ok::<bool, Seq<char>>(x <= y),
        binary_test(int_text(x), "-gt"@, int_text(y)) == Ok::<bool, Seq<char>>(x > y),
        binary_test(int_text(x), "-ge"@, int_text(y)) == Ok::<bool, Seq<char>>(x >= y),
{
    lemma_int_text_parses(x);
    lemma_int_text_parses(y);
    reveal_strlit("=");
    reveal_strlit("==");
    reveal_strlit("!=");
    reveal_strlit("-eq");
    reveal_strlit("-ne");
    reveal_strlit("-lt");
    reveal_strlit("-le");
    reveal_strlit("-gt");
    reveal_strlit("-ge");
    assert("="@.len() == 1 && "=="@.len() == 2 && "!="@.len() == 2);
    assert("-eq"@.len() == 3 && "-ne"@.len() == 3 && "-lt"@.len() == 3 && "-le"@.len() == 3 && "-gt"@.len() == 3 && "-ge"@.len() == 3);
    assert("-eq"@[1] == 'e' && "-ne"@[1] == 'n' && "-lt"@[1] == 'l' && "-le"@[1] == 'l' && "-gt"@[1] == 'g' && "-ge"@[1] == 'g');
    assert("-lt"@[2] == 't' && "-le"@[2] == 'e' && "-gt"@[2] == 't' && "-ge"@[2] == 'e');
}

// ------------------------------------------------ double quotes

proof fn lemma_double_plain_from(w: Seq<char>, t: Seq<char>, k: int, env: ShellEnvironment, last_status: u8)
    requires
        w == seq!['"'] + t + seq!['"'],
        0 <= k <= t.len(),
        forall|j: int| 0 <= j < t.len() ==> #[trigger] t[j] != '"' && t[j] != '\\' && t[j] != '$',
    ensures
        expand_from(w, 1 + k, QuoteState::Double, env, last_status) == (t.skip(k), QuoteState::Normal),
    decreases t.len() - k,
{
    if k < t.len() {
        assert(w[1 + k] == t[k]);
        lemma_double_plain_from(w, t, k + 1, env, last_status);
        assert(seq![t[k]] + t.skip(k + 1) =~= t.skip(k));
    } else {
        assert(w[1 + k] == '"');
        assert(t.skip(k) =~= Seq::<char>::empty());
        assert(expand_from(w, 2 + k, QuoteState::Normal, env, last_status) == (Seq::<char>::empty(), QuoteState::Normal));
    }
}

/// Inside double quotes every character but `"`, `\` and `$` is kept as
/// it is (a single quote too): `"t"` expands to `t` when `t` holds none of
/// those three.
pub proof fn lemma_double_quoted_text_is_kept(t: Seq<char>, env: ShellEnvironment, last_status: u8)
    requires
        forall|j: int| 0 <= j < t.len() ==> #[trigger] t[j] != '"' && t[j] != '\\' && t[j] != '$',
    ensures
        expand_word(seq!['"'] + t + seq!['"'], env, last_status) == Ok::<Seq<char>, LexError>(t),
{
    let w = seq!['"'] + t + seq!['"'];
    lemma_double_plain_from(w, t, 0, env, last_status);
    assert(w[0] == '"');
    assert(t.skip(0) =~= t);
    assert(Seq::<char>::empty() + t =~= t);
}

// ------------------------------------------------ pipeline stage input

/// A program stage reads the file of its own `<` (or its heredoc) and
/// writes the file of its own `>`, whatever the previous stage left: once
/// its redirections are open, the spawn uses them.
pub proof fn lemma_stage_redirections_override_pipes(v: StagedView, t: RedirectTargets)
    requires
        v.phase == StagedPhase::Open,
        0 <= v.index < v.builtin.len(),
        !v.builtin[v.index],
    ensures
        ({
            let a = staged_next(v, StagedEvent::Opened(Ok(t))).1;
            &&& a is Spawn
            &&& (t.stdin matches Some(StdinTarget::File(k)) ==> a->Spawn_stdin == StdinModel::File(k))
            &&& (t.stdin matches Some(StdinTarget::Heredoc(b)) ==> a->Spawn_stdin == StdinModel::Heredoc(b@))
            &&& (t.stdout matches Some(k) ==> a->Spawn_stdout == StageStdout::File(k))
        }),
{
}

// ------------------------------------------------ repeat

/// The dispatch after the command at hand finished with status `c`, `k`
/// times over.
pub open spec fn after_runs(v: DispatchView, c: u8, k: nat) -> (DispatchView, ActionView)
    decreases k,
{
    if k == 0 {
        (v, crate::command::pending_action(v))
    } else {
        let r = after_runs(v, c, (k - 1) as nat);
        next(r.0, EventView::Function(Some(CommandResult::Status(c))))
    }
}

/// `repeat n cmd` runs `cmd` exactly `n` times: the builtin's answer
/// starts the first run, each run that ends with a status starts the next
/// one with that status, and the `n`-th ends the command with it.
pub proof fn lemma_repeat_runs_n_times(v: DispatchView, n: nat, argv: Seq<Seq<char>>, c: u8, k: nat)
    requires
        v.phase == Phase::Builtin,
        v.frames.len() == 0,
        n > 0,
        1 <= k <= n,
    ensures
        next(v, EventView::BuiltinRepeat { count: n, argv }).1
            == (ActionView::RunFunction { argv, last_status: v.last_status }),
        k < n ==> after_runs(next(v, EventView::BuiltinRepeat { count: n, argv }).0, c, k).1
            == (ActionView::RunFunction { argv, last_status: c }),
        k == n ==> after_runs(next(v, EventView::BuiltinRepeat { count: n, argv }).0, c, k).1
            == ActionView::Finished(CommandResult::Status(c)),
{
    lemma_repeat_state(v, n, argv, c, k);
}

proof fn lemma_repeat_state(v: DispatchView, n: nat, argv: Seq<Seq<char>>, c: u8, k: nat)
    requires
        v.phase == Phase::Builtin,
        v.frames.len() == 0,
        n > 0,
        k <= n,
    ensures
        ({
            let s = next(v, EventView::BuiltinRepeat { count: n, argv }).0;
            let r = after_runs(s, c, k);
            &&& s.argv == argv
            &&& s.phase == Phase::Function
            &&& s.frames == seq![FrameView { remaining: (n - 1) as nat, argv }]
            &&& s.last_status == v.last_status
            &&& (k < n ==> {
                &&& r.0.phase == Phase::Function
                &&& r.0.argv == argv
                &&& r.0.frames == seq![FrameView { remaining: (n - 1 - k) as nat, argv }]
                &&& (k > 0 ==> r.0.last_status == c)
                &&& (k > 0 ==> r.1 == (ActionView::RunFunction { argv, last_status: c }))
            })
            &&& (k == n ==> r.1 == ActionView::Finished(CommandResult::Status(c)))
        }),
    decreases k,
{
    let pushed = DispatchView { source: v.source, mode: v.mode, argv: v.argv, last_status: v.last_status, phase: v.phase,
        frames: v.frames.push(FrameView { remaining: n, argv }) };
    assert(pushed.frames.last() == FrameView { remaining: n, argv });
    assert(pushed.frames.update(0, FrameView { remaining: (n - 1) as nat, argv }) =~= seq![FrameView { remaining: (n - 1) as nat, argv }]);
    if k > 0 {
        lemma_repeat_state(v, n, argv, c, (k - 1) as nat);
        let s = next(v, EventView::BuiltinRepeat { count: n, argv }).0;
        let prev = after_runs(s, c, (k - 1) as nat).0;
        let top = prev.frames.last();
        assert(top == FrameView { remaining: (n - 1 - (k - 1)) as nat, argv });
        if k == n {
            let popped = DispatchView { frames: prev.frames.drop_last(), ..prev };
            assert(popped.frames =~= Seq::<FrameView>::empty());
            assert(settle(prev, CommandResult::Status(c)) == settle(popped, CommandResult::Status(c)));
        } else {
            assert(prev.frames.update(0, FrameView { remaining: (n - 1 - k) as nat, argv }) =~= seq![FrameView { remaining: (n - 1 - k) as nat, argv }]);
        }
    }
}

} // verus!
