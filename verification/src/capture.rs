//! Command substitution output handling.

use vstd::prelude::*;
use crate::ast::CommandList;
use crate::cond::{trim, trim_range};
use crate::expand::LexError;
use crate::text::{chars_of, string_of, string_pop, string_push, strip_line_endings};

verus! {

/// Strips trailing `\n` and `\r` from command-substitution output (tcsh).
pub fn trim_trailing_newlines(s: String) -> (r: String)
    ensures
        r@ == strip_line_endings(s@),
{
    let mut out = s;
    let ghost goal = strip_line_endings(out@);
    loop
        invariant
            strip_line_endings(out@) == goal,
            goal == strip_line_endings(s@),
        decreases out@.len(),
    {
        let ghost before = out@;
        match string_pop(&mut out) {
            Some(c) => {
                if c != '\n' && c != '\r' {
                    string_push(&mut out, c);
                    assert(out@ =~= before);
                    return out;
                }
            },
            None => {
                return out;
            },
        }
    }
}

/// The command line a substitution body runs: `source` without surrounding
/// white space, or `None` where nothing is left (the output is then empty).
pub fn capture_body(source: &str) -> (r: Option<String>)
    ensures
        trim(source@).len() == 0 ==> r is None,
        trim(source@).len() > 0 ==> r is Some && r->Some_0@ == trim(source@),
{
    let cs = chars_of(source);
    let (a, b) = trim_range(&cs, 0, cs.len());
    assert(cs@.subrange(0, cs@.len() as int) =~= cs@);
    if a == b {
        None
    } else {
        Some(string_of(&cs, a, b))
    }
}

/// The value of a command substitution from what running its body gave:
/// the text it wrote to standard output, or `None` where collecting its
/// heredoc bodies or running it failed.
pub fn capture_outcome(output: Option<String>) -> (r: Result<String, LexError>)
    ensures
        match output {
            Some(out) => r is Ok && r->Ok_0@ == strip_line_endings(out@),
            None => r == Err::<String, LexError>(LexError::CommandSubstitution),
        },
{
    match output {
        Some(out) => Ok(trim_trailing_newlines(out)),
        None => Err(LexError::CommandSubstitution),
    }
}

/// What lexing and parsing a substitution body gave.
#[derive(Debug)]
pub enum LineParse {
    /// The body did not lex.
    LexFailed(LexError),
    /// It lexed but did not parse.
    ParseFailed,
    /// It holds no command.
    Empty,
    /// The command line it holds.
    List(CommandList),
}

/// What to do with a substitution body once parsed.
#[derive(Debug)]
pub enum CapturePlan {
    /// The substitution's value is settled.
    Done(Result<String, LexError>),
    /// Collect the heredoc bodies of this list and run it, capturing its
    /// output (then see [`capture_outcome`]).
    Run(CommandList),
}

/// A lexing error is the substitution's error as it is; a parse error is
/// a failed command substitution; no command gives an empty value.
pub fn capture_plan(parsed: LineParse) -> (p: CapturePlan)
    ensures
        match parsed {
            LineParse::LexFailed(e) => p matches CapturePlan::Done(r) && r == Err::<String, LexError>(e),
            LineParse::ParseFailed => p matches CapturePlan::Done(r) && r == Err::<String, LexError>(LexError::CommandSubstitution),
            LineParse::Empty => p matches CapturePlan::Done(r) && r is Ok && r->Ok_0@ == Seq::<char>::empty(),
            LineParse::List(l) => p matches CapturePlan::Run(m) && m == l,
        },
{
    match parsed {
        LineParse::LexFailed(e) => CapturePlan::Done(Err(e)),
        LineParse::ParseFailed => CapturePlan::Done(Err(LexError::CommandSubstitution)),
        LineParse::Empty => CapturePlan::Done(Ok(String::new())),
        LineParse::List(l) => CapturePlan::Run(l),
    }
}

} // verus!
