//! `( list )` groups: an isolated environment whose `exit` only ends the
//! group, with optional group redirections.

use vstd::prelude::*;
use crate::command::{CommandResult, StdoutMode};
use crate::redirect::{stdin_view, RedirectTargets, StdinTarget, StdinView};

verus! {

/// A subshell's result as its parent sees it: `exit n` inside the group
/// is just status `n` outside it.
pub fn subshell_result(result: CommandResult) -> (r: CommandResult)
    ensures
        r == CommandResult::Status(match result { CommandResult::Status(c) => c, CommandResult::Exit(c) => c }),
{
    match result {
        CommandResult::Exit(code) | CommandResult::Status(code) => CommandResult::Status(code),
    }
}

/// The streams a group's list runs with.
#[derive(Debug)]
pub struct GroupIo {
    /// `None`: the parent's standard input.
    pub stdin: Option<StdinTarget>,
    /// `None`: the parent's standard output.
    pub stdout_file: Option<usize>,
    pub mode: StdoutMode,
}

/// Group redirections bind the list's streams; writing to a file captures
/// (external programs' output is piped into it).
pub fn apply_group_stdio(targets: RedirectTargets, mode: StdoutMode) -> (g: GroupIo)
    ensures
        stdin_view(g.stdin) == stdin_view(targets.stdin),
        g.stdout_file == targets.stdout,
        g.mode == if targets.stdout is Some { StdoutMode::Capture } else { mode },
{
    let mode = match targets.stdout {
        Some(_) => StdoutMode::Capture,
        None => mode,
    };
    GroupIo { stdin: targets.stdin, stdout_file: targets.stdout, mode }
}

} // verus!
