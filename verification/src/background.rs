//! Background (`&`) pipelines: a simple external command is spawned
//! directly; anything else runs in an isolated shell process fed a script.

use vstd::prelude::*;
use crate::ast::{Pipeline, PipelineCommand};
use crate::command::CommandResult;
use crate::redirect::{stdin_view, RedirectTargets, StdinTarget, StdinView};

verus! {

/// How a background simple command is launched.
#[derive(Debug)]
pub enum BackgroundPlan {
    /// Nothing is launched; the command ends with this result.
    Done(CommandResult),
    /// A builtin: run it in an isolated shell process.
    IsolatedShell,
    /// Spawn this program directly as a background job.
    Spawn(Vec<String>),
}

/// After expanding a background simple command's words: an expansion
/// failure ends it with that status, no words with status 0; a builtin
/// (`first_is_builtin` for the first word) needs an isolated shell.
pub fn background_simple(expanded: Result<Vec<String>, u8>, first_is_builtin: bool) -> (p: BackgroundPlan)
    ensures
        match expanded {
            Err(code) => p matches BackgroundPlan::Done(r) && r == CommandResult::Status(code),
            Ok(argv) => if argv@.len() == 0 {
                p matches BackgroundPlan::Done(r) && r == CommandResult::Status(0)
            } else if first_is_builtin {
                p is IsolatedShell
            } else {
                p matches BackgroundPlan::Spawn(a) && a@ == argv@
            },
        },
{
    match expanded {
        Err(code) => BackgroundPlan::Done(CommandResult::Status(code)),
        Ok(argv) => {
            if argv.len() == 0 {
                BackgroundPlan::Done(CommandResult::Status(0))
            } else if first_is_builtin {
                BackgroundPlan::IsolatedShell
            } else {
                BackgroundPlan::Spawn(argv)
            }
        },
    }
}

/// A background job's streams: files from redirections, otherwise null
/// (a heredoc is not fed to a background job).
#[derive(Debug)]
pub struct BackgroundStdio {
    pub stdin_file: Option<usize>,
    pub stdout_file: Option<usize>,
}

/// Wires a background job's redirections.
pub fn apply_bg_stdio(targets: RedirectTargets) -> (s: BackgroundStdio)
    ensures
        s.stdin_file == match stdin_view(targets.stdin) {
            Some(StdinView::File(i)) => Some(i as usize),
            _ => None,
        },
        s.stdout_file == targets.stdout,
{
    let stdin_file = match targets.stdin {
        Some(StdinTarget::File(i)) => Some(i),
        _ => None,
    };
    BackgroundStdio { stdin_file, stdout_file: targets.stdout }
}

/// Whether a background pipeline is one simple command, which is launched
/// directly; anything else runs as a script in a new shell process.
pub fn is_single_simple(pipeline: &Pipeline) -> (b: bool)
    ensures
        b == (pipeline.commands@.len() == 1 && pipeline.commands@[0] is Simple),
{
    pipeline.commands.len() == 1 && match &pipeline.commands[0] {
        PipelineCommand::Simple(_) => true,
        PipelineCommand::Subshell { .. } => false,
    }
}

} // verus!
