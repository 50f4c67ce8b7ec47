//! Running one simple command against its opened redirections: which
//! runner takes it, and how an external program's streams are wired.

use vstd::prelude::*;
use crate::command::{BuiltinResult, CommandResult, StdoutMode};
use crate::text::push_str;
use crate::redirect::{stdin_view, RedirectTargets, StdinTarget, StdinView};

verus! {

/// Who runs a redirected simple command.
#[derive(PartialEq, Eq, Structural, Clone, Copy, Debug)]
pub enum Runner {
    /// A shell function of that name exists.
    Function,
    /// The name is a builtin.
    Builtin,
    /// An external program.
    External,
}

/// A defined function comes first, then builtins, then programs.
pub fn dispatch_with_files(is_function: bool, is_builtin: bool) -> (r: Runner)
    ensures
        r == if is_function { Runner::Function } else if is_builtin { Runner::Builtin } else { Runner::External },
{
    if is_function {
        Runner::Function
    } else if is_builtin {
        Runner::Builtin
    } else {
        Runner::External
    }
}

/// How an external program's standard streams are set up.
#[derive(Debug)]
pub struct StdioPlan {
    /// Read standard input from the file of this redirection.
    pub stdin_file: Option<usize>,
    /// Bytes written to the program's piped standard input.
    pub stdin_bytes: Option<String>,
    /// Write standard output to the file of this redirection.
    pub stdout_file: Option<usize>,
    /// Pipe standard output and copy it to the shell's stdout.
    pub copy_out: bool,
}

/// A file redirect wires the file; a heredoc is fed through a pipe;
/// without an output file, stdout is piped back only when capturing.
pub fn configure_stdio(targets: RedirectTargets, mode: StdoutMode) -> (p: StdioPlan)
    ensures
        match stdin_view(targets.stdin) {
            Some(StdinView::File(i)) => p.stdin_file == Some(i as usize) && p.stdin_bytes is None,
            Some(StdinView::Heredoc(b)) => p.stdin_file is None && p.stdin_bytes is Some && p.stdin_bytes->Some_0@ == b,
            None => p.stdin_file is None && p.stdin_bytes is None,
        },
        p.stdout_file == targets.stdout,
        p.copy_out == (targets.stdout is None && mode == StdoutMode::Capture),
{
    let (stdin_file, stdin_bytes) = match targets.stdin {
        Some(StdinTarget::File(i)) => (Some(i), None),
        Some(StdinTarget::Heredoc(b)) => (None, Some(b)),
        None => (None, None),
    };
    let copy_out = match targets.stdout {
        Some(_) => false,
        None => mode == StdoutMode::Capture,
    };
    StdioPlan { stdin_file, stdin_bytes, stdout_file: targets.stdout, copy_out }
}

/// How a configured external program is run.
#[derive(PartialEq, Eq, Structural, Clone, Copy, Debug)]
pub enum RunRoute {
    /// In the foreground under job control (it may be stopped).
    JobControl,
    /// Spawned and waited for, with no stream to feed or copy.
    Status,
    /// Spawned, fed its input bytes and/or copied its output, then waited.
    WithIo,
}

/// Job control applies only when nothing is fed or copied.
pub fn run_configured(has_stdin_bytes: bool, copy_out: bool, job_control: bool) -> (r: RunRoute)
    ensures
        r == if !has_stdin_bytes && !copy_out {
            if job_control { RunRoute::JobControl } else { RunRoute::Status }
        } else {
            RunRoute::WithIo
        },
{
    if !has_stdin_bytes && !copy_out && job_control {
        return RunRoute::JobControl;
    }
    if !has_stdin_bytes && !copy_out {
        return RunRoute::Status;
    }
    RunRoute::WithIo
}

/// A redirected builtin or function whose output file is set writes
/// there; a run that returns no result counts as status 0.
pub fn builtin_result(result: Option<CommandResult>) -> (r: CommandResult)
    ensures
        r == match result { Some(x) => x, None => CommandResult::Status(0) },
{
    match result {
        Some(x) => x,
        None => CommandResult::Status(0),
    }
}

/// The result of a builtin run with redirections (`None`: it ran with no
/// result, status 0). `repeat` and `source` cannot run there: they write
/// `repeat: not available in this context.` (or `source: …`) and give
/// status 1.
pub fn redirected_builtin_result(result: Option<BuiltinResult>, err: &mut String) -> (r: CommandResult)
    ensures
        match result {
            None => r == CommandResult::Status(0) && final(err)@ == old(err)@,
            Some(BuiltinResult::Status(c)) => r == CommandResult::Status(c) && final(err)@ == old(err)@,
            Some(BuiltinResult::Exit(c)) => r == CommandResult::Exit(c) && final(err)@ == old(err)@,
            Some(BuiltinResult::Repeat { .. }) => r == CommandResult::Status(1)
                && final(err)@ == old(err)@ + "repeat: not available in this context.\n"@,
            Some(BuiltinResult::Source(_)) => r == CommandResult::Status(1)
                && final(err)@ == old(err)@ + "source: not available in this context.\n"@,
        },
{
    match result {
        None => CommandResult::Status(0),
        Some(BuiltinResult::Status(c)) => CommandResult::Status(c),
        Some(BuiltinResult::Exit(c)) => CommandResult::Exit(c),
        Some(BuiltinResult::Repeat { .. }) => {
            push_str(err, "repeat: not available in this context.\n");
            CommandResult::Status(1)
        },
        Some(BuiltinResult::Source(_)) => {
            push_str(err, "source: not available in this context.\n");
            CommandResult::Status(1)
        },
    }
}

} // verus!
