//! Dispatch of one simple command: shell functions first, then builtins
//! (with `repeat` re-running a command), then an external program.
//!
//! Running a function, a builtin or a program is work done outside the
//! library; [`CommandDispatch`] decides what to run next from what the
//! previous run returned.

use vstd::prelude::*;
use crate::text::clone_strings;

verus! {

/// Outcome of running one simple command or a list/pipeline.
#[derive(PartialEq, Eq, Structural, Clone, Copy, Debug)]
pub enum CommandResult {
    /// Keep the REPL running with this status.
    Status(u8),
    /// Terminate the shell with this status (`exit` builtin).
    Exit(u8),
}

/// What a builtin asked for.
#[derive(Debug)]
pub enum BuiltinResult {
    /// It ran, with this status.
    Status(u8),
    /// `exit` with this status.
    Exit(u8),
    /// `repeat count cmd…`: run `argv` `count` times.
    Repeat { count: u32, argv: Vec<String> },
    /// `source file`: run the commands of this file in the current shell.
    Source(String),
}

/// Whether external programs inherit the process stdout or pipe it back
/// into the shell (command substitution).
#[derive(PartialEq, Eq, Structural, Clone, Copy, Debug)]
pub enum StdoutMode {
    Inherit,
    Capture,
}

/// Which run the dispatch is waiting for, or its outcome.
#[derive(PartialEq, Eq, Structural, Clone, Copy, Debug)]
pub enum Phase {
    Function,
    Builtin,
    External,
    /// A file asked for by `source` is being run.
    Source,
    Done(CommandResult),
}

/// What the caller runs next, or the final outcome.
#[derive(Debug)]
pub enum DispatchAction {
    /// Run `argv` as a shell function, if one is defined; report with
    /// [`DispatchEvent::Function`].
    RunFunction { argv: Vec<String>, last_status: u8 },
    /// Run `argv` as a builtin, if it is one; report with
    /// [`DispatchEvent::Builtin`].
    RunBuiltin { argv: Vec<String>, last_status: u8 },
    /// Run `argv` as an external program; report its status with
    /// [`DispatchEvent::External`].
    RunExternal { argv: Vec<String>, mode: StdoutMode },
    /// Run the commands of the file at `path` in the current shell (the
    /// builtin `source` asked for it); report their result with
    /// [`DispatchEvent::Sourced`].
    RunSource { path: String },
    /// The command is done.
    Finished(CommandResult),
}

/// What the last requested run returned.
#[derive(Debug)]
pub enum DispatchEvent {
    /// `None` when no function of that name exists.
    Function(Option<CommandResult>),
    /// `None` when the name is not a builtin.
    Builtin(Option<BuiltinResult>),
    /// The program's exit status.
    External(u8),
    /// What running a sourced file gave.
    Sourced(CommandResult),
}

struct RepeatFrame {
    remaining: u32,
    argv: Vec<String>,
}

/// The dispatch of one command, with the `repeat` loops it is inside.
pub struct CommandDispatch {
    mode: StdoutMode,
    argv: Vec<String>,
    last_status: u8,
    phase: Phase,
    frames: Vec<RepeatFrame>,
    source: String,
}

/// A pending `repeat`: runs left, and the command it repeats.
#[verifier::ext_equal]
pub struct FrameView {
    pub remaining: nat,
    pub argv: Seq<Seq<char>>,
}

/// The model of a dispatch: mode, the command now dispatched and its
/// incoming status, the phase, and the enclosing `repeat` loops
/// (innermost last).
#[verifier::ext_equal]
pub struct DispatchView {
    pub mode: StdoutMode,
    pub argv: Seq<Seq<char>>,
    pub last_status: u8,
    pub phase: Phase,
    pub frames: Seq<FrameView>,
    /// The file being sourced (in the `Source` phase).
    pub source: Seq<char>,
}

/// The model of an action.
#[verifier::ext_equal]
pub enum ActionView {
    RunFunction { argv: Seq<Seq<char>>, last_status: u8 },
    RunBuiltin { argv: Seq<Seq<char>>, last_status: u8 },
    RunExternal { argv: Seq<Seq<char>>, mode: StdoutMode },
    RunSource { path: Seq<char> },
    Finished(CommandResult),
}

/// The model of an event (a builtin's `repeat` carries its argv's view).
pub enum EventView {
    Function(Option<CommandResult>),
    BuiltinStatus(u8),
    BuiltinExit(u8),
    BuiltinRepeat { count: nat, argv: Seq<Seq<char>> },
    BuiltinSource(Seq<char>),
    NotBuiltin,
    External(u8),
    Sourced(CommandResult),
}

/// The views of a vector of strings.
pub open spec fn words(v: Seq<String>) -> Seq<Seq<char>> {
    v.map_values(|s: String| s@)
}

impl View for CommandDispatch {
    type V = DispatchView;

    closed spec fn view(&self) -> DispatchView {
        DispatchView {
            mode: self.mode,
            argv: words(self.argv@),
            last_status: self.last_status,
            phase: self.phase,
            frames: self.frames@.map_values(|f: RepeatFrame| FrameView { remaining: f.remaining as nat, argv: words(f.argv@) }),
            source: self.source@,
        }
    }
}

impl View for DispatchAction {
    type V = ActionView;

    open spec fn view(&self) -> ActionView {
        match self {
            DispatchAction::RunFunction { argv, last_status } => ActionView::RunFunction { argv: words(argv@), last_status: *last_status },
            DispatchAction::RunBuiltin { argv, last_status } => ActionView::RunBuiltin { argv: words(argv@), last_status: *last_status },
            DispatchAction::RunExternal { argv, mode } => ActionView::RunExternal { argv: words(argv@), mode: *mode },
            DispatchAction::RunSource { path } => ActionView::RunSource { path: path@ },
            DispatchAction::Finished(r) => ActionView::Finished(*r),
        }
    }
}

impl View for DispatchEvent {
    type V = EventView;

    open spec fn view(&self) -> EventView {
        match self {
            DispatchEvent::Function(r) => EventView::Function(*r),
            DispatchEvent::Builtin(None) => EventView::NotBuiltin,
            DispatchEvent::Builtin(Some(BuiltinResult::Status(c))) => EventView::BuiltinStatus(*c),
            DispatchEvent::Builtin(Some(BuiltinResult::Exit(c))) => EventView::BuiltinExit(*c),
            DispatchEvent::Builtin(Some(BuiltinResult::Repeat { count, argv })) => EventView::BuiltinRepeat { count: *count as nat, argv: words(argv@) },
            DispatchEvent::Builtin(Some(BuiltinResult::Source(p))) => EventView::BuiltinSource(p@),
            DispatchEvent::External(c) => EventView::External(*c),
            DispatchEvent::Sourced(r) => EventView::Sourced(*r),
        }
    }
}

/// The action a dispatch is waiting on (re-issued for an event that does
/// not answer it).
pub open spec fn pending_action(v: DispatchView) -> ActionView {
    match v.phase {
        Phase::Function => ActionView::RunFunction { argv: v.argv, last_status: v.last_status },
        Phase::Builtin => ActionView::RunBuiltin { argv: v.argv, last_status: v.last_status },
        Phase::External => ActionView::RunExternal { argv: v.argv, mode: v.mode },
        Phase::Source => ActionView::RunSource { path: v.source },
        Phase::Done(r) => ActionView::Finished(r),
    }
}

/// Starting the dispatch of `argv` with incoming status `last_status`:
/// functions are tried first.
pub open spec fn begin(v: DispatchView, argv: Seq<Seq<char>>, last_status: u8) -> (DispatchView, ActionView) {
    (
        DispatchView { source: v.source, mode: v.mode, argv, last_status, phase: Phase::Function, frames: v.frames },
        ActionView::RunFunction { argv, last_status },
    )
}

/// The command now dispatched ended with `r`. Outside any `repeat`, the
/// dispatch is done. Inside one, `exit` leaves the loop with the same
/// result; a status becomes the incoming status of the next run, or, when
/// no runs are left, the loop's own result.
pub open spec fn settle(v: DispatchView, r: CommandResult) -> (DispatchView, ActionView)
    decreases v.frames.len(),
{
    if v.frames.len() == 0 {
        (DispatchView { source: v.source, mode: v.mode, argv: v.argv, last_status: v.last_status, phase: Phase::Done(r), frames: v.frames },
            ActionView::Finished(r))
    } else {
        let popped = DispatchView { source: v.source, mode: v.mode, argv: v.argv, last_status: v.last_status, phase: v.phase, frames: v.frames.drop_last() };
        match r {
            CommandResult::Exit(_) => settle(popped, r),
            CommandResult::Status(c) => {
                let top = v.frames.last();
                if top.remaining == 0 {
                    settle(popped, r)
                } else {
                    let frames = v.frames.update(v.frames.len() - 1, FrameView { remaining: (top.remaining - 1) as nat, argv: top.argv });
                    begin(DispatchView { source: v.source, mode: v.mode, argv: v.argv, last_status: v.last_status, phase: v.phase, frames }, top.argv, c)
                }
            },
        }
    }
}

/// One decision: the next state and action after `e`.
pub open spec fn next(v: DispatchView, e: EventView) -> (DispatchView, ActionView) {
    let same = DispatchView { source: v.source, mode: v.mode, argv: v.argv, last_status: v.last_status, phase: v.phase, frames: v.frames };
    match (v.phase, e) {
        (Phase::Function, EventView::Function(Some(r))) => settle(v, r),
        (Phase::Function, EventView::Function(None)) => (
            DispatchView { source: v.source, mode: v.mode, argv: v.argv, last_status: v.last_status, phase: Phase::Builtin, frames: v.frames },
            ActionView::RunBuiltin { argv: v.argv, last_status: v.last_status },
        ),
        (Phase::Builtin, EventView::BuiltinStatus(c)) => settle(v, CommandResult::Status(c)),
        (Phase::Builtin, EventView::BuiltinExit(c)) => settle(v, CommandResult::Exit(c)),
        (Phase::Builtin, EventView::BuiltinRepeat { count, argv }) => settle(
            DispatchView { source: v.source, mode: v.mode, argv: v.argv, last_status: v.last_status, phase: v.phase,
                frames: v.frames.push(FrameView { remaining: count, argv }) },
            CommandResult::Status(v.last_status),
        ),
        (Phase::Builtin, EventView::NotBuiltin) => if v.argv.len() == 0 {
            settle(v, CommandResult::Status(0))
        } else {
            (
                DispatchView { source: v.source, mode: v.mode, argv: v.argv, last_status: v.last_status, phase: Phase::External, frames: v.frames },
                ActionView::RunExternal { argv: v.argv, mode: v.mode },
            )
        },
        (Phase::Builtin, EventView::BuiltinSource(path)) => (
            DispatchView { source: path, phase: Phase::Source, ..v },
            ActionView::RunSource { path },
        ),
        (Phase::External, EventView::External(code)) => settle(v, CommandResult::Status(code)),
        (Phase::Source, EventView::Sourced(r)) => settle(v, r),
        _ => (same, pending_action(v)),
    }
}

impl CommandDispatch {
    /// The command to run next, when ended by `r` (see [`settle`]).
    fn settle(&mut self, r: CommandResult) -> (a: DispatchAction)
        ensures
            (final(self)@, a@) == settle(old(self)@, r),
    {
        let ghost goal = settle(self@, r);
        let mut cur = r;
        loop
            invariant
                settle(self@, cur) == goal,
                goal == settle(old(self)@, r),
            decreases self.frames@.len(),
        {
            let n = self.frames.len();
            let ghost v = self@;
            if n == 0 {
                self.phase = Phase::Done(cur);
                return DispatchAction::Finished(cur);
            }
            match cur {
                CommandResult::Exit(_) => {
                    self.frames.pop();
                    assert(self@.frames =~= v.frames.drop_last());
                },
                CommandResult::Status(c) => {
                    if self.frames[n - 1].remaining == 0 {
                        self.frames.pop();
                        assert(self@.frames =~= v.frames.drop_last());
                    } else {
                        let remaining = self.frames[n - 1].remaining - 1;
                        let argv = clone_strings(&self.frames[n - 1].argv);
                        let action_argv = clone_strings(&argv);
                        let top_argv = clone_strings(&argv);
                        self.frames.set(n - 1, RepeatFrame { remaining, argv: top_argv });
                        self.argv = argv;
                        self.last_status = c;
                        self.phase = Phase::Function;
                        proof {
                            let top = v.frames.last();
                            assert(self@.frames =~= v.frames.update(v.frames.len() - 1,
                                FrameView { remaining: (top.remaining - 1) as nat, argv: top.argv }));
                        }
                        return DispatchAction::RunFunction { argv: action_argv, last_status: c };
                    }
                },
            }
        }
    }

    /// The action this dispatch waits on.
    fn pending(&self) -> (a: DispatchAction)
        ensures
            a@ == pending_action(self@),
    {
        match self.phase {
            Phase::Function => DispatchAction::RunFunction { argv: clone_strings(&self.argv), last_status: self.last_status },
            Phase::Builtin => DispatchAction::RunBuiltin { argv: clone_strings(&self.argv), last_status: self.last_status },
            Phase::External => DispatchAction::RunExternal { argv: clone_strings(&self.argv), mode: self.mode },
            Phase::Source => DispatchAction::RunSource { path: self.source.clone() },
            Phase::Done(r) => DispatchAction::Finished(r),
        }
    }

    /// The model of this dispatch.
    pub open spec fn spec_view(&self) -> DispatchView {
        self@
    }

    /// Decides what to run next from what the last run returned. An event
    /// that does not answer the pending action changes nothing and the
    /// pending action is issued again.
    pub fn step(&mut self, event: DispatchEvent) -> (a: DispatchAction)
        ensures
            (final(self)@, a@) == next(old(self)@, event@),
    {
        match (self.phase, event) {
            (Phase::Function, DispatchEvent::Function(Some(r))) => self.settle(r),
            (Phase::Function, DispatchEvent::Function(None)) => {
                self.phase = Phase::Builtin;
                DispatchAction::RunBuiltin { argv: clone_strings(&self.argv), last_status: self.last_status }
            },
            (Phase::Builtin, DispatchEvent::Builtin(Some(BuiltinResult::Status(c)))) => self.settle(CommandResult::Status(c)),
            (Phase::Builtin, DispatchEvent::Builtin(Some(BuiltinResult::Exit(c)))) => self.settle(CommandResult::Exit(c)),
            (Phase::Builtin, DispatchEvent::Builtin(Some(BuiltinResult::Repeat { count, argv }))) => {
                let ghost v = self@;
                let ghost av = words(argv@);
                self.frames.push(RepeatFrame { remaining: count, argv });
                assert(self@.frames =~= v.frames.push(FrameView { remaining: count as nat, argv: av }));
                let s = self.last_status;
                self.settle(CommandResult::Status(s))
            },
            (Phase::Builtin, DispatchEvent::Builtin(None)) => {
                if self.argv.len() == 0 {
                    return self.settle(CommandResult::Status(0));
                }
                self.phase = Phase::External;
                DispatchAction::RunExternal { argv: clone_strings(&self.argv), mode: self.mode }
            },
            (Phase::Builtin, DispatchEvent::Builtin(Some(BuiltinResult::Source(path)))) => {
                let action_path = path.clone();
                self.source = path;
                self.phase = Phase::Source;
                DispatchAction::RunSource { path: action_path }
            },
            (Phase::External, DispatchEvent::External(code)) => self.settle(CommandResult::Status(code)),
            (Phase::Source, DispatchEvent::Sourced(r)) => self.settle(r),
            _ => self.pending(),
        }
    }
}

/// Starts the dispatch of `argv` in the given stdout mode: the first
/// action is always to try a shell function.
pub fn execute_command_mode(stdout_mode: StdoutMode, argv: Vec<String>, last_status: u8) -> (r: (CommandDispatch, DispatchAction))
    ensures
        r.0@ == (DispatchView { mode: stdout_mode, argv: words(argv@), last_status, phase: Phase::Function, frames: Seq::empty(), source: Seq::empty() }),
        r.1@ == (ActionView::RunFunction { argv: words(argv@), last_status }),
{
    let first = clone_strings(&argv);
    let d = CommandDispatch { mode: stdout_mode, argv, last_status, phase: Phase::Function, frames: Vec::new(), source: String::new() };
    assert(d@.frames =~= Seq::<FrameView>::empty());
    (d, DispatchAction::RunFunction { argv: first, last_status })
}

/// Starts the dispatch of a simple command whose external programs
/// inherit stdout.
pub fn execute_command(argv: Vec<String>, last_status: u8) -> (r: (CommandDispatch, DispatchAction))
    ensures
        r.0@ == (DispatchView { mode: StdoutMode::Inherit, argv: words(argv@), last_status, phase: Phase::Function, frames: Seq::empty(), source: Seq::empty() }),
        r.1@ == (ActionView::RunFunction { argv: words(argv@), last_status }),
{
    execute_command_mode(StdoutMode::Inherit, argv, last_status)
}

} // verus!
