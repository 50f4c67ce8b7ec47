//! Bash/ksh-style `((expr))` arithmetic command: which words are one, and
//! the status that an evaluation gives.

use vstd::prelude::*;
use crate::ast::SimpleCommand;
use crate::text::{chars_of, push_str, string_of, string_push};

verus! {

/// The inner text of a `((…))` word, if it is one.
pub open spec fn arith_body_text(raw: Seq<char>) -> Option<Seq<char>> {
    if raw.len() < 4 || raw[0] != '(' || raw[1] != '(' || raw[raw.len() - 2] != ')' || raw[raw.len() - 1] != ')' {
        None
    } else {
        Some(raw.subrange(2, raw.len() - 2))
    }
}

/// The inner text of a `((…))` word.
pub fn body_of(raw: &str) -> (r: Option<String>)
    ensures
        match r {
            Some(b) => arith_body_text(raw@) == Some(b@),
            None => arith_body_text(raw@) is None,
        },
{
    let cs = chars_of(raw);
    let n = cs.len();
    if n < 4 || cs[0] != '(' || cs[1] != '(' || cs[n - 2] != ')' || cs[n - 1] != ')' {
        return None;
    }
    Some(string_of(&cs, 2, n - 2))
}

/// When `simple` is a lone `((…))` word, the expression inside it.
pub fn arith_body(simple: &SimpleCommand) -> (r: Option<String>)
    ensures
        simple.argv@.len() != 1 ==> r is None,
        simple.argv@.len() == 1 ==> match r {
            Some(b) => arith_body_text(simple.argv@[0]@) == Some(b@),
            None => arith_body_text(simple.argv@[0]@) is None,
        },
{
    if simple.argv.len() != 1 {
        return None;
    }
    body_of(simple.argv[0].as_str())
}

/// The status of an arithmetic command given its evaluation: 1 when the
/// value is 0, else 0; on an error its message is written and the status
/// is 1.
pub fn run(evaluation: Result<i64, String>, err: &mut String) -> (status: u8)
    ensures
        match evaluation {
            Ok(v) => status == (if v == 0 { 1u8 } else { 0u8 }) && final(err)@ == old(err)@,
            Err(m) => status == 1 && final(err)@ == old(err)@ + m@ + seq!['\n'],
        },
{
    match evaluation {
        Ok(0) => 1,
        Ok(_) => 0,
        Err(message) => {
            push_str(err, message.as_str());
            string_push(err, '\n');
            1
        },
    }
}

} // verus!
