//! Child-process decisions shared by simple, redirected and piped
//! execution: exit statuses, builtin statuses, program resolution.

use vstd::prelude::*;
use crate::command::BuiltinResult;
use crate::text::{chars_of, push_str};

verus! {

/// The shell status of a finished child: its exit code truncated to a
/// byte; otherwise `128 + signal` (saturating at 255); otherwise 1.
pub open spec fn exit_code_of(code: Option<i32>, signal: Option<i32>) -> u8 {
    match code {
        Some(c) => (c as int % 256) as u8,
        None => match signal {
            Some(s) => if 128 + (s as int % 256) > 255 { 255 } else { (128 + (s as int % 256)) as u8 },
            None => 1,
        },
    }
}

fn low_byte(x: i32) -> (r: u8)
    ensures
        r as int == x as int % 256,
{
    let r = #[verifier::truncate] (x as u8);
    assert(r == (x & 0xff) as u8) by (bit_vector)
        requires
            r == x as u8,
    ;
    assert((x & 0xff) as int == (x as int) % 256) by (bit_vector);
    r
}

/// The shell status for a child that exited with `code`, or was killed by
/// `signal` (as `ExitStatus::code` / `ExitStatusExt::signal` report).
pub fn exit_status_code(code: Option<i32>, signal: Option<i32>) -> (r: u8)
    ensures
        r == exit_code_of(code, signal),
{
    if let Some(c) = code {
        return low_byte(c);
    }
    if let Some(s) = signal {
        return 128u8.saturating_add(low_byte(s));
    }
    1
}

/// Written when `repeat` runs where it cannot.
pub open spec fn repeat_unavailable_message() -> Seq<char> {
    "repeat: not available in this context.\n"@
}

/// Written when `source` is asked for inside a pipeline or subshell.
pub open spec fn source_unavailable_message() -> Seq<char> {
    "source: not available in this context.\n"@
}

/// The status of a builtin run inside a pipeline or subshell, where `exit`
/// only ends that stage: `exit n` and status `n` give `n`; `repeat` and
/// `source` are not available (status 1, with a message); a non-builtin gives 0.
pub fn run_builtin_status(result: Option<BuiltinResult>, err: &mut String) -> (r: u8)
    ensures
        match result {
            Some(BuiltinResult::Status(c)) => r == c && final(err)@ == old(err)@,
            Some(BuiltinResult::Exit(c)) => r == c && final(err)@ == old(err)@,
            Some(BuiltinResult::Repeat { .. }) => r == 1 && final(err)@ == old(err)@ + repeat_unavailable_message(),
            Some(BuiltinResult::Source(_)) => r == 1 && final(err)@ == old(err)@ + source_unavailable_message(),
            None => r == 0 && final(err)@ == old(err)@,
        },
{
    match result {
        Some(BuiltinResult::Status(code)) => code,
        Some(BuiltinResult::Exit(code)) => code,
        Some(BuiltinResult::Repeat { .. }) => {
            push_str(err, "repeat: not available in this context.\n");
            1
        },
        Some(BuiltinResult::Source(_)) => {
            push_str(err, "source: not available in this context.\n");
            1
        },
        None => 0,
    }
}

/// The program to run for command name `name`: a name with a `/` is used
/// as is; otherwise the result of the `PATH` search, or the bare name.
pub open spec fn program_for(name: Seq<char>, found: Option<Seq<char>>) -> Seq<char> {
    if name.contains('/') {
        name
    } else {
        match found {
            Some(p) => p,
            None => name,
        }
    }
}

/// Whether `name` is looked up on `PATH` (it has no `/`).
pub fn needs_path_search(name: &String) -> (b: bool)
    ensures
        b == !name@.contains('/'),
{
    let cs = chars_of(name.as_str());
    let mut i: usize = 0;
    while i < cs.len()
        invariant
            cs@ == name@,
            i <= cs@.len(),
            forall|k: int| 0 <= k < i ==> cs@[k] != '/',
        decreases cs.len() - i,
    {
        if cs[i] == '/' {
            return false;
        }
        i += 1;
    }
    true
}

/// Resolves the program for `name` given the `PATH` search result.
pub fn resolve_program(name: &String, found: Option<String>) -> (p: String)
    ensures
        p@ == program_for(name@, match found { Some(f) => Some(f@), None => None }),
{
    if !needs_path_search(name) {
        return name.clone();
    }
    match found {
        Some(path) => path,
        None => name.clone(),
    }
}

/// A pipeline's status: that of its last stage (0 when it has none).
pub fn wait_children(statuses: &Vec<u8>) -> (r: u8)
    ensures
        statuses@.len() == 0 ==> r == 0,
        statuses@.len() > 0 ==> r == statuses@.last(),
{
    let count = statuses.len();
    let mut last_status: u8 = 0;
    let mut index: usize = 0;
    while index < count
        invariant
            count == statuses@.len(),
            index <= count,
            index == 0 ==> last_status == 0,
            index > 0 ==> last_status == statuses@[index - 1],
        decreases count - index,
    {
        last_status = statuses[index];
        index += 1;
    }
    last_status
}

/// Whether running `argv` as a program starts anything: an empty command
/// line runs nothing and has status 0.
pub fn spawns(argv: &Vec<String>) -> (b: bool)
    ensures
        b == (argv@.len() > 0),
{
    argv.len() > 0
}

} // verus!
