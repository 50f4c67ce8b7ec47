//! `|` pipeline execution decisions: how each stage is wired and run.
//!
//! Builtins in a multi-stage pipeline run with subshell semantics (cloned
//! environment; `exit` does not end the shell) and their output is
//! buffered for the next stage. External stages are spawned with pipes
//! between them. The status is the last stage's status.
//!
//! Spawning, waiting and copying bytes are done by the caller;
//! [`PipedRun`] decides what to do next from what the last step returned.

use vstd::prelude::*;
use crate::command::{words, CommandResult};
use crate::text::clone_strings;

verus! {

/// Where a spawned stage reads its standard input.
#[derive(PartialEq, Eq, Structural, Clone, Copy, Debug)]
pub enum StageInput {
    /// The shell's own standard input.
    Inherit,
    /// The previous external stage's stdout pipe.
    Pipe,
    /// The previous builtin stage's buffered output, written to a new pipe.
    Buffer,
}

/// Output of the previous stage that the next stage may consume.
#[derive(PartialEq, Eq, Structural, Clone, Copy, Debug)]
pub enum Pending {
    Nothing,
    Pipe,
    Buffer,
}

/// What the run waits for, or its result.
#[derive(PartialEq, Eq, Structural, Clone, Copy, Debug)]
pub enum PipePhase {
    /// A builtin stage is running.
    Builtin,
    /// An external stage is being spawned.
    Spawn,
    /// Waiting for the spawned children; `Some(s)` when the last stage was
    /// a builtin with status `s`, which is then the pipeline's status.
    Wait(Option<u8>),
    Done(CommandResult),
}

/// What the caller does next.
#[derive(Debug)]
pub enum PipeAction {
    /// Drain the previous stage's stdout pipe when `drain_pipe`, drop any
    /// buffered output, then run the builtin `argv` in a copy of the
    /// environment with `last_status`, writing to the pipeline's stdout
    /// when `to_stdout`, else into a new buffer. Report its status.
    RunBuiltin { argv: Vec<String>, last_status: u8, drain_pipe: bool, to_stdout: bool },
    /// Spawn `argv` reading `input`, with its stdout piped when
    /// `pipe_stdout`. Report whether it spawned.
    Spawn { argv: Vec<String>, input: StageInput, pipe_stdout: bool },
    /// Wait for every spawned child; report the last one's status.
    WaitChildren,
    /// Kill every spawned child; the pipeline ends with this result.
    Abandon(CommandResult),
    /// The pipeline ends with this result.
    Finished(CommandResult),
}

/// What the last step returned.
#[derive(Debug)]
pub enum PipeEvent {
    BuiltinDone(u8),
    Spawned,
    /// Spawning failed; the status reported for the failure.
    SpawnFailed(u8),
    Waited(u8),
}

/// A multi-stage pipeline in progress.
pub struct PipedRun {
    stages: Vec<Vec<String>>,
    builtin: Vec<bool>,
    last_status: u8,
    index: usize,
    pending: Pending,
    phase: PipePhase,
}

/// The model of a run.
#[verifier::ext_equal]
pub struct PipeView {
    pub stages: Seq<Seq<Seq<char>>>,
    pub builtin: Seq<bool>,
    pub last_status: u8,
    pub index: int,
    pub pending: Pending,
    pub phase: PipePhase,
}

/// The model of an action.
#[verifier::ext_equal]
pub enum PipeActionView {
    RunBuiltin { argv: Seq<Seq<char>>, last_status: u8, drain_pipe: bool, to_stdout: bool },
    Spawn { argv: Seq<Seq<char>>, input: StageInput, pipe_stdout: bool },
    WaitChildren,
    Abandon(CommandResult),
    Finished(CommandResult),
}

impl View for PipedRun {
    type V = PipeView;

    closed spec fn view(&self) -> PipeView {
        PipeView {
            stages: self.stages@.map_values(|s: Vec<String>| words(s@)),
            builtin: self.builtin@,
            last_status: self.last_status,
            index: self.index as int,
            pending: self.pending,
            phase: self.phase,
        }
    }
}

impl View for PipeAction {
    type V = PipeActionView;

    open spec fn view(&self) -> PipeActionView {
        match self {
            PipeAction::RunBuiltin { argv, last_status, drain_pipe, to_stdout } => PipeActionView::RunBuiltin {
                argv: words(argv@), last_status: *last_status, drain_pipe: *drain_pipe, to_stdout: *to_stdout },
            PipeAction::Spawn { argv, input, pipe_stdout } => PipeActionView::Spawn { argv: words(argv@), input: *input, pipe_stdout: *pipe_stdout },
            PipeAction::WaitChildren => PipeActionView::WaitChildren,
            PipeAction::Abandon(r) => PipeActionView::Abandon(*r),
            PipeAction::Finished(r) => PipeActionView::Finished(*r),
        }
    }
}

/// Where stage input comes from, given the previous stage's output.
pub open spec fn input_for(p: Pending) -> StageInput {
    match p {
        Pending::Nothing => StageInput::Inherit,
        Pending::Pipe => StageInput::Pipe,
        Pending::Buffer => StageInput::Buffer,
    }
}

/// What to do at stage `i`: past the last stage, wait for the children;
/// an empty stage abandons the pipeline with status 0; a builtin runs
/// (buffered unless last); anything else is spawned (stdout piped unless
/// last).
pub open spec fn enter(v: PipeView, i: int, pending: Pending) -> (PipeView, PipeActionView) {
    let n = v.stages.len();
    let at = |phase: PipePhase| PipeView { stages: v.stages, builtin: v.builtin, last_status: v.last_status, index: i, pending, phase };
    if i >= n {
        (at(PipePhase::Wait(None)), PipeActionView::WaitChildren)
    } else if v.stages[i].len() == 0 {
        (at(PipePhase::Done(CommandResult::Status(0))), PipeActionView::Abandon(CommandResult::Status(0)))
    } else if v.builtin[i] {
        (at(PipePhase::Builtin), PipeActionView::RunBuiltin {
            argv: v.stages[i], last_status: v.last_status, drain_pipe: pending == Pending::Pipe, to_stdout: i == n - 1 })
    } else {
        (at(PipePhase::Spawn), PipeActionView::Spawn { argv: v.stages[i], input: input_for(pending), pipe_stdout: i != n - 1 })
    }
}

/// The action a run waits on (re-issued for an event that does not
/// answer it).
pub open spec fn pending_pipe_action(v: PipeView) -> PipeActionView {
    match v.phase {
        PipePhase::Builtin => enter(v, v.index, v.pending).1,
        PipePhase::Spawn => enter(v, v.index, v.pending).1,
        PipePhase::Wait(_) => PipeActionView::WaitChildren,
        PipePhase::Done(r) => if v.index < v.stages.len() { PipeActionView::Abandon(r) } else { PipeActionView::Finished(r) },
    }
}

/// One decision of a pipeline run.
pub open spec fn pipe_next(v: PipeView, e: PipeEvent) -> (PipeView, PipeActionView) {
    let n = v.stages.len();
    let with_phase = |phase: PipePhase| PipeView { stages: v.stages, builtin: v.builtin, last_status: v.last_status, index: v.index, pending: v.pending, phase };
    match (v.phase, e) {
        (PipePhase::Builtin, PipeEvent::BuiltinDone(s)) => if v.index == n - 1 {
            (with_phase(PipePhase::Wait(Some(s))), PipeActionView::WaitChildren)
        } else {
            enter(v, v.index + 1, Pending::Buffer)
        },
        (PipePhase::Spawn, PipeEvent::Spawned) =>
            enter(v, v.index + 1, if v.index == n - 1 { Pending::Nothing } else { Pending::Pipe }),
        (PipePhase::Spawn, PipeEvent::SpawnFailed(code)) =>
            (with_phase(PipePhase::Done(CommandResult::Status(code))), PipeActionView::Abandon(CommandResult::Status(code))),
        (PipePhase::Wait(b), PipeEvent::Waited(s)) => {
            let r = CommandResult::Status(match b { Some(x) => x, None => s });
            (PipeView { stages: v.stages, builtin: v.builtin, last_status: v.last_status, index: n as int, pending: v.pending, phase: PipePhase::Done(r) },
                PipeActionView::Finished(r))
        },
        _ => (v, pending_pipe_action(v)),
    }
}

impl PipedRun {
    #[verifier::type_invariant]
    spec fn well_formed(self) -> bool {
        &&& self.stages@.len() > 0
        &&& self.builtin@.len() == self.stages@.len()
        &&& self.index <= self.stages@.len()
        &&& (self.phase is Builtin || self.phase is Spawn) ==> self.index < self.stages@.len()
    }

    /// The model of this run.
    pub open spec fn spec_view(&self) -> PipeView {
        self@
    }

    fn enter(&mut self, i: usize, pending: Pending) -> (a: PipeAction)
        requires
            i <= old(self)@.stages.len(),
        ensures
            (final(self)@, a@) == enter(old(self)@, i as int, pending),
    {
        proof {
            use_type_invariant(&*self);
        }
        let n = self.stages.len();
        if i >= n {
            self.phase = PipePhase::Wait(None);
            self.index = i;
            self.pending = pending;
            return PipeAction::WaitChildren;
        }
        if self.stages[i].len() == 0 {
            self.index = i;
            self.pending = pending;
            self.phase = PipePhase::Done(CommandResult::Status(0));
            return PipeAction::Abandon(CommandResult::Status(0));
        }
        let argv = clone_strings(&self.stages[i]);
        self.index = i;
        self.pending = pending;
        if self.builtin[i] {
            self.phase = PipePhase::Builtin;
            PipeAction::RunBuiltin { argv, last_status: self.last_status, drain_pipe: pending == Pending::Pipe, to_stdout: i == n - 1 }
        } else {
            self.phase = PipePhase::Spawn;
            let input = match pending {
                Pending::Nothing => StageInput::Inherit,
                Pending::Pipe => StageInput::Pipe,
                Pending::Buffer => StageInput::Buffer,
            };
            PipeAction::Spawn { argv, input, pipe_stdout: i != n - 1 }
        }
    }

    fn pending_action(&self) -> (a: PipeAction)
        ensures
            a@ == pending_pipe_action(self@),
    {
        proof {
            use_type_invariant(self);
        }
        match self.phase {
            PipePhase::Builtin | PipePhase::Spawn => {
                let i = self.index;
                let n = self.stages.len();
                let argv = clone_strings(&self.stages[i]);
                if self.stages[i].len() == 0 {
                    PipeAction::Abandon(CommandResult::Status(0))
                } else if self.builtin[i] {
                    PipeAction::RunBuiltin { argv, last_status: self.last_status, drain_pipe: self.pending == Pending::Pipe, to_stdout: i == n - 1 }
                } else {
                    let input = match self.pending {
                        Pending::Nothing => StageInput::Inherit,
                        Pending::Pipe => StageInput::Pipe,
                        Pending::Buffer => StageInput::Buffer,
                    };
                    PipeAction::Spawn { argv, input, pipe_stdout: i != n - 1 }
                }
            },
            PipePhase::Wait(_) => PipeAction::WaitChildren,
            PipePhase::Done(r) => if self.index < self.stages.len() { PipeAction::Abandon(r) } else { PipeAction::Finished(r) },
        }
    }

    /// Decides the next step from what the last one returned. An event that
    /// does not answer the pending action changes nothing and that action
    /// is issued again.
    pub fn step(&mut self, event: PipeEvent) -> (a: PipeAction)
        ensures
            (final(self)@, a@) == pipe_next(old(self)@, event),
    {
        proof {
            use_type_invariant(&*self);
        }
        let n = self.stages.len();
        match (self.phase, event) {
            (PipePhase::Builtin, PipeEvent::BuiltinDone(s)) => {
                if self.index == n - 1 {
                    self.phase = PipePhase::Wait(Some(s));
                    PipeAction::WaitChildren
                } else {
                    let next = self.index + 1;
                    self.enter(next, Pending::Buffer)
                }
            },
            (PipePhase::Spawn, PipeEvent::Spawned) => {
                let pending = if self.index == n - 1 { Pending::Nothing } else { Pending::Pipe };
                let next = self.index + 1;
                self.enter(next, pending)
            },
            (PipePhase::Spawn, PipeEvent::SpawnFailed(code)) => {
                self.phase = PipePhase::Done(CommandResult::Status(code));
                PipeAction::Abandon(CommandResult::Status(code))
            },
            (PipePhase::Wait(b), PipeEvent::Waited(s)) => {
                let r = CommandResult::Status(match b { Some(x) => x, None => s });
                self.phase = PipePhase::Done(r);
                self.index = n;
                PipeAction::Finished(r)
            },
            (_, ev) => {
                let a = self.pending_action();
                proof {
                    assert(pipe_next(old(self)@, ev) == (old(self)@, pending_pipe_action(old(self)@)));
                }
                a
            },
        }
    }
}

/// Starts a multi-stage pipeline over the expanded argv of each stage;
/// `builtin[i]` tells whether stage `i` names a builtin. The first stage
/// reads the shell's standard input.
pub fn execute_piped_stages(stages: Vec<Vec<String>>, builtin: Vec<bool>, last_status: u8) -> (r: (PipedRun, PipeAction))
    requires
        stages@.len() > 0,
        builtin@.len() == stages@.len(),
    ensures
        ({
            let v = PipeView {
                stages: stages@.map_values(|s: Vec<String>| words(s@)),
                builtin: builtin@,
                last_status,
                index: 0,
                pending: Pending::Nothing,
                phase: PipePhase::Spawn,
            };
            (r.0@, r.1@) == enter(v, 0, Pending::Nothing)
        }),
{
    let mut run = PipedRun { stages, builtin, last_status, index: 0, pending: Pending::Nothing, phase: PipePhase::Spawn };
    let a = run.enter(0, Pending::Nothing);
    (run, a)
}

} // verus!
