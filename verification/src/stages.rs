//! `|` pipelines whose stages may be `( … )` subshells and carry their own
//! redirections.
//!
//! Every simple stage is expanded before anything runs; an expansion
//! failure ends the pipeline with its status. Then the stages run left to
//! right: an empty stage kills what was spawned and ends with status 0; a
//! stage whose redirections fail kills and reaps what was spawned and ends
//! with their status. Builtins run in a copy of the environment, their
//! output buffered for the next stage; a program that fails to start
//! does not stop the pipeline (its status counts only on the last stage);
//! a subshell stage reads the previous stage's output as bytes. The
//! status is the last stage's: a builtin's or a failed spawn's status
//! when the last stage was one, otherwise the last child's exit status.
//!
//! Expanding, opening, spawning and waiting are done by the caller;
//! [`StagedRun`] decides what happens next from what those returned.

use vstd::prelude::*;
use crate::ast::{Pipeline, PipelineCommand};
use crate::command::{words, CommandResult, StdoutMode};
use crate::pipeline::Pending;
use crate::redirect::{RedirectTargets, StdinTarget};
use crate::render::{render_pipeline, render_pipeline_text};
use crate::text::clone_strings;

verus! {

/// What a stage of the pipeline is.
#[derive(PartialEq, Eq, Structural, Clone, Copy, Debug)]
pub enum StageKind {
    Simple,
    Subshell,
}

/// Where a stage reads its standard input.
#[derive(Debug)]
pub enum StageStdin {
    /// The shell's own standard input.
    Shell,
    /// The previous stage's stdout pipe (a subshell stage reads it to the
    /// end first and is fed the bytes).
    Pipe,
    /// The bytes the previous stage left in a buffer.
    Buffer,
    /// The file opened for this stage's redirection at this index.
    File(usize),
    /// A heredoc body.
    Heredoc(String),
}

/// Where a stage writes its standard output.
#[derive(PartialEq, Eq, Structural, Clone, Copy, Debug)]
pub enum StageStdout {
    /// The pipeline's own standard output.
    Shell,
    /// A pipe (a program) or a buffer (a builtin or subshell) that the next
    /// stage reads.
    Next,
    /// A pipe whose bytes are copied into the pipeline's standard output
    /// (the last stage, a program, while output is captured).
    Capture,
    /// The file opened for this stage's redirection at this index.
    File(usize),
}

/// How a pipeline ends.
#[derive(PartialEq, Eq, Structural, Clone, Copy, Debug)]
pub enum Ending {
    /// Kill the children spawned so far when `kill`, wait for them when
    /// `wait`, and end with `result`.
    End { kill: bool, wait: bool, result: CommandResult },
    /// The pipeline was stopped: register its children as a stopped job
    /// under the pipeline's text and end with `result`.
    Suspend(CommandResult),
}

/// What the run waits for, or how it ended.
#[derive(PartialEq, Eq, Structural, Clone, Copy, Debug)]
pub enum StagedPhase {
    Prepare,
    Open,
    Builtin,
    Spawn,
    Subshell,
    Wait,
    Done(Ending),
}

/// What waiting for the children gave.
#[derive(PartialEq, Eq, Structural, Clone, Copy, Debug)]
pub enum WaitResult {
    /// All exited; the last child's status.
    Done(u8),
    /// The pipeline was stopped; the status the shell reports for that.
    Stopped(u8),
}

/// What the caller does next.
#[derive(Debug)]
pub enum StagedAction {
    /// Expand the words of simple stage `index` (and apply aliases),
    /// writing the message of a failure; report [`StagedEvent::Prepared`].
    Prepare { index: usize },
    /// Open the redirections of stage `index`; report
    /// [`StagedEvent::Opened`].
    OpenRedirects { index: usize },
    /// Drain the previous stage's pipe or drop its buffer when `drain`,
    /// then run the builtin `argv` in a copy of the environment with
    /// `last_status`, writing to `stdout`; report its status.
    RunBuiltin { argv: Vec<String>, last_status: u8, drain: bool, stdout: StageStdout },
    /// Drain the previous stage's pipe or drop its buffer when `drain`,
    /// then spawn `argv` reading `stdin` and writing `stdout`; report
    /// whether it started (on a failure, with the status the shell gives
    /// it after reporting it).
    Spawn { argv: Vec<String>, drain: bool, stdin: StageStdin, stdout: StageStdout },
    /// Run the `( … )` list of stage `index` (with its own redirections)
    /// in a copy of the environment, reading `stdin`, writing `stdout`
    /// with output mode `mode`; report its result.
    RunSubshell { index: usize, stdin: StageStdin, stdout: StageStdout, mode: StdoutMode },
    /// Drain what the last stage left, wait for every child; report
    /// [`StagedEvent::Waited`].
    Wait,
    /// The pipeline ends (see [`Ending::End`]).
    End { kill: bool, wait: bool, result: CommandResult },
    /// The pipeline stopped (see [`Ending::Suspend`]); `command` is its text.
    Suspend { command: String, result: CommandResult },
}

/// What the last step returned.
#[derive(Debug)]
pub enum StagedEvent {
    /// The expanded argv, or the status of a failure; whether its first
    /// word names a builtin.
    Prepared { argv: Result<Vec<String>, u8>, builtin: bool },
    Opened(Result<RedirectTargets, u8>),
    BuiltinDone(u8),
    Spawned,
    SpawnFailed(u8),
    SubshellDone(CommandResult),
    Waited(WaitResult),
}

/// The model of a standard-input source.
pub enum StdinModel {
    Shell,
    Pipe,
    Buffer,
    File(usize),
    Heredoc(Seq<char>),
}

impl View for StageStdin {
    type V = StdinModel;

    open spec fn view(&self) -> StdinModel {
        match self {
            StageStdin::Shell => StdinModel::Shell,
            StageStdin::Pipe => StdinModel::Pipe,
            StageStdin::Buffer => StdinModel::Buffer,
            StageStdin::File(k) => StdinModel::File(*k),
            StageStdin::Heredoc(b) => StdinModel::Heredoc(b@),
        }
    }
}

/// The model of an action.
pub enum StagedActionView {
    Prepare { index: int },
    OpenRedirects { index: int },
    RunBuiltin { argv: Seq<Seq<char>>, last_status: u8, drain: bool, stdout: StageStdout },
    Spawn { argv: Seq<Seq<char>>, drain: bool, stdin: StdinModel, stdout: StageStdout },
    RunSubshell { index: int, stdin: StdinModel, stdout: StageStdout, mode: StdoutMode },
    Wait,
    End { kill: bool, wait: bool, result: CommandResult },
    Suspend { command: Seq<char>, result: CommandResult },
}

impl View for StagedAction {
    type V = StagedActionView;

    open spec fn view(&self) -> StagedActionView {
        match self {
            StagedAction::Prepare { index } => StagedActionView::Prepare { index: *index as int },
            StagedAction::OpenRedirects { index } => StagedActionView::OpenRedirects { index: *index as int },
            StagedAction::RunBuiltin { argv, last_status, drain, stdout } => StagedActionView::RunBuiltin {
                argv: words(argv@), last_status: *last_status, drain: *drain, stdout: *stdout },
            StagedAction::Spawn { argv, drain, stdin, stdout } => StagedActionView::Spawn {
                argv: words(argv@), drain: *drain, stdin: stdin@, stdout: *stdout },
            StagedAction::RunSubshell { index, stdin, stdout, mode } => StagedActionView::RunSubshell {
                index: *index as int, stdin: stdin@, stdout: *stdout, mode: *mode },
            StagedAction::Wait => StagedActionView::Wait,
            StagedAction::End { kill, wait, result } => StagedActionView::End { kill: *kill, wait: *wait, result: *result },
            StagedAction::Suspend { command, result } => StagedActionView::Suspend { command: command@, result: *result },
        }
    }
}

/// The model of a run: the stages, their expanded argv and builtin flags
/// (filled in as they are prepared), the incoming status, the output
/// mode, the pipeline's text, the stage at hand, what the previous stage
/// left, the status a builtin or failed spawn set on the last stage, the
/// redirection targets of the stage at hand, and the phase.
pub struct StagedView {
    pub kinds: Seq<StageKind>,
    pub argvs: Seq<Seq<Seq<char>>>,
    pub builtin: Seq<bool>,
    pub last_status: u8,
    pub mode: StdoutMode,
    pub command: Seq<char>,
    pub index: int,
    pub pending: Pending,
    pub terminal: Option<u8>,
    pub stdin: Option<StdinModel>,
    pub stdout: Option<usize>,
    pub phase: StagedPhase,
}

/// A pipeline of stages in progress.
pub struct StagedRun {
    kinds: Vec<StageKind>,
    argvs: Vec<Vec<String>>,
    builtin: Vec<bool>,
    last_status: u8,
    mode: StdoutMode,
    command: String,
    index: usize,
    pending: Pending,
    terminal: Option<u8>,
    stdin: Option<StdinTarget>,
    stdout: Option<usize>,
    phase: StagedPhase,
}

/// The model of a redirection's standard-input target.
pub open spec fn target_model(t: Option<StdinTarget>) -> Option<StdinModel> {
    match t {
        Some(StdinTarget::Heredoc(b)) => Some(StdinModel::Heredoc(b@)),
        Some(StdinTarget::File(k)) => Some(StdinModel::File(k)),
        None => None,
    }
}

impl View for StagedRun {
    type V = StagedView;

    closed spec fn view(&self) -> StagedView {
        StagedView {
            kinds: self.kinds@,
            argvs: self.argvs@.map_values(|a: Vec<String>| words(a@)),
            builtin: self.builtin@,
            last_status: self.last_status,
            mode: self.mode,
            command: self.command@,
            index: self.index as int,
            pending: self.pending,
            terminal: self.terminal,
            stdin: target_model(self.stdin),
            stdout: self.stdout,
            phase: self.phase,
        }
    }
}

/// Standard input from what the previous stage left.
pub open spec fn from_pending(p: Pending) -> StdinModel {
    match p {
        Pending::Nothing => StdinModel::Shell,
        Pending::Pipe => StdinModel::Pipe,
        Pending::Buffer => StdinModel::Buffer,
    }
}

/// A builtin writes to its redirection, else to the pipeline's output
/// when last, else into a buffer for the next stage.
pub open spec fn builtin_stdout(out: Option<usize>, last: bool) -> StageStdout {
    match out {
        Some(k) => StageStdout::File(k),
        None => if last { StageStdout::Shell } else { StageStdout::Next },
    }
}

/// A program writes to its redirection, else into a pipe for the next
/// stage, else (last) into a pipe copied out while capturing, else to the
/// pipeline's output.
pub open spec fn spawn_stdout(out: Option<usize>, last: bool, mode: StdoutMode) -> StageStdout {
    match out {
        Some(k) => StageStdout::File(k),
        None => if !last {
            StageStdout::Next
        } else if mode == StdoutMode::Capture {
            StageStdout::Capture
        } else {
            StageStdout::Shell
        },
    }
}

/// A program reads its redirection (after the previous stage's output is
/// discarded), else what the previous stage left.
pub open spec fn spawn_stdin(p: Pending, t: Option<StdinModel>) -> StdinModel {
    match t {
        Some(m) => m,
        None => from_pending(p),
    }
}

/// The action of an ending.
pub open spec fn ending_action(v: StagedView, e: Ending) -> StagedActionView {
    match e {
        Ending::End { kill, wait, result } => StagedActionView::End { kill, wait, result },
        Ending::Suspend(r) => StagedActionView::Suspend { command: v.command, result: r },
    }
}

/// Ends the run.
pub open spec fn finish(v: StagedView, e: Ending) -> (StagedView, StagedActionView) {
    (StagedView { phase: StagedPhase::Done(e), ..v }, ending_action(v, e))
}

/// The builtin or program run of the stage at hand, its redirections
/// opened.
pub open spec fn run_action(v: StagedView) -> StagedActionView {
    let last = v.index == v.kinds.len() - 1;
    if v.phase == StagedPhase::Builtin {
        StagedActionView::RunBuiltin {
            argv: v.argvs[v.index],
            last_status: v.last_status,
            drain: v.pending != Pending::Nothing,
            stdout: builtin_stdout(v.stdout, last),
        }
    } else {
        StagedActionView::Spawn {
            argv: v.argvs[v.index],
            drain: v.stdin is Some && v.pending != Pending::Nothing,
            stdin: spawn_stdin(v.pending, v.stdin),
            stdout: spawn_stdout(v.stdout, last, v.mode),
        }
    }
}

/// Starting stage `i` with what the previous stage left and the status
/// set so far: past the last stage, wait; a subshell runs at once; an
/// empty simple stage ends the pipeline with status 0, killing what was
/// spawned; otherwise its redirections are opened.
pub open spec fn enter(v: StagedView, i: int, pending: Pending, terminal: Option<u8>) -> (StagedView, StagedActionView) {
    let n = v.kinds.len();
    let at = |phase: StagedPhase| StagedView { index: i, pending, terminal, stdin: None, stdout: None, phase, ..v };
    if i >= n {
        (at(StagedPhase::Wait), StagedActionView::Wait)
    } else if v.kinds[i] == StageKind::Subshell {
        let last = i == n - 1;
        (at(StagedPhase::Subshell), StagedActionView::RunSubshell {
            index: i,
            stdin: from_pending(pending),
            stdout: if last { StageStdout::Shell } else { StageStdout::Next },
            mode: if last { v.mode } else { StdoutMode::Capture },
        })
    } else if v.argvs[i].len() == 0 {
        finish(at(StagedPhase::Wait), Ending::End { kill: true, wait: false, result: CommandResult::Status(0) })
    } else {
        (at(StagedPhase::Open), StagedActionView::OpenRedirects { index: i })
    }
}

/// Preparing the simple stages from `i` on; once all are prepared, the
/// first stage starts.
pub open spec fn prepare_from(v: StagedView, i: int) -> (StagedView, StagedActionView)
    decreases v.kinds.len() - i,
{
    if i >= v.kinds.len() {
        enter(v, 0, Pending::Nothing, None)
    } else if v.kinds[i] == StageKind::Simple {
        (StagedView { index: i, phase: StagedPhase::Prepare, ..v }, StagedActionView::Prepare { index: i })
    } else {
        prepare_from(v, i + 1)
    }
}

/// The action a run waits on (issued again for an event that does not
/// answer it).
pub open spec fn pending_staged_action(v: StagedView) -> StagedActionView {
    match v.phase {
        StagedPhase::Prepare => StagedActionView::Prepare { index: v.index },
        StagedPhase::Open => StagedActionView::OpenRedirects { index: v.index },
        StagedPhase::Builtin => run_action(v),
        StagedPhase::Spawn => run_action(v),
        StagedPhase::Subshell => enter(v, v.index, v.pending, v.terminal).1,
        StagedPhase::Wait => StagedActionView::Wait,
        StagedPhase::Done(e) => ending_action(v, e),
    }
}

/// One decision of a run.
pub open spec fn staged_next(v: StagedView, e: StagedEvent) -> (StagedView, StagedActionView) {
    let i = v.index;
    let last = i == v.kinds.len() - 1;
    match (v.phase, e) {
        (StagedPhase::Prepare, StagedEvent::Prepared { argv: Ok(a), builtin: b }) =>
            prepare_from(StagedView { argvs: v.argvs.update(i, words(a@)), builtin: v.builtin.update(i, b), ..v }, i + 1),
        (StagedPhase::Prepare, StagedEvent::Prepared { argv: Err(c), builtin: _ }) =>
            finish(v, Ending::End { kill: false, wait: false, result: CommandResult::Status(c) }),
        (StagedPhase::Open, StagedEvent::Opened(Ok(t))) => {
            let w = StagedView {
                stdin: target_model(t.stdin),
                stdout: t.stdout,
                phase: if v.builtin[i] { StagedPhase::Builtin } else { StagedPhase::Spawn },
                ..v
            };
            (w, run_action(w))
        },
        (StagedPhase::Open, StagedEvent::Opened(Err(c))) =>
            finish(v, Ending::End { kill: true, wait: true, result: CommandResult::Status(c) }),
        (StagedPhase::Builtin, StagedEvent::BuiltinDone(s)) => if last {
            enter(v, i + 1, Pending::Nothing, Some(s))
        } else {
            enter(v, i + 1, if v.stdout is Some { Pending::Nothing } else { Pending::Buffer }, v.terminal)
        },
        (StagedPhase::Spawn, StagedEvent::Spawned) =>
            enter(v, i + 1, if spawn_stdout(v.stdout, last, v.mode) == StageStdout::Next { Pending::Pipe } else { Pending::Nothing }, v.terminal),
        (StagedPhase::Spawn, StagedEvent::SpawnFailed(c)) =>
            enter(v, i + 1, Pending::Nothing, if last { Some(c) } else { v.terminal }),
        (StagedPhase::Subshell, StagedEvent::SubshellDone(r)) => if last {
            finish(v, Ending::End { kill: false, wait: true, result: r })
        } else {
            enter(v, i + 1, Pending::Buffer, v.terminal)
        },
        (StagedPhase::Wait, StagedEvent::Waited(WaitResult::Done(s))) =>
            finish(v, Ending::End { kill: false, wait: false, result: CommandResult::Status(match v.terminal {
                Some(t) => t,
                None => s,
            }) }),
        (StagedPhase::Wait, StagedEvent::Waited(WaitResult::Stopped(s))) =>
            finish(v, Ending::Suspend(CommandResult::Status(s))),
        _ => (v, pending_staged_action(v)),
    }
}

impl StagedRun {
    #[verifier::type_invariant]
    spec fn well_formed(self) -> bool {
        &&& self.argvs@.len() == self.kinds@.len()
        &&& self.builtin@.len() == self.kinds@.len()
        &&& self.index <= self.kinds@.len()
        &&& !(self.phase is Wait || self.phase is Done) ==> self.index < self.kinds@.len()
        &&& self.phase is Subshell ==> self.kinds@[self.index as int] == StageKind::Subshell
    }

    /// The model of this run.
    pub open spec fn spec_view(&self) -> StagedView {
        self@
    }

    fn stdin_from_pending(p: Pending) -> (s: StageStdin)
        ensures
            s@ == from_pending(p),
    {
        match p {
            Pending::Nothing => StageStdin::Shell,
            Pending::Pipe => StageStdin::Pipe,
            Pending::Buffer => StageStdin::Buffer,
        }
    }

    fn ending_action(&self, e: Ending) -> (a: StagedAction)
        ensures
            a@ == ending_action(self@, e),
    {
        match e {
            Ending::End { kill, wait, result } => StagedAction::End { kill, wait, result },
            Ending::Suspend(result) => StagedAction::Suspend { command: self.command.clone(), result },
        }
    }

    fn finish(&mut self, e: Ending) -> (a: StagedAction)
        ensures
            (final(self)@, a@) == finish(old(self)@, e),
    {
        proof {
            use_type_invariant(&*self);
        }
        self.phase = StagedPhase::Done(e);
        self.ending_action(e)
    }

    fn run_action(&self) -> (a: StagedAction)
        requires
            self.phase is Builtin || self.phase is Spawn,
        ensures
            a@ == run_action(self@),
    {
        proof {
            use_type_invariant(self);
        }
        let i = self.index;
        let last = i == self.kinds.len() - 1;
        let argv = clone_strings(&self.argvs[i]);
        let out = self.stdout;
        if self.phase == StagedPhase::Builtin {
            let stdout = match out {
                Some(k) => StageStdout::File(k),
                None => if last { StageStdout::Shell } else { StageStdout::Next },
            };
            StagedAction::RunBuiltin { argv, last_status: self.last_status, drain: self.pending != Pending::Nothing, stdout }
        } else {
            let stdout = match out {
                Some(k) => StageStdout::File(k),
                None => if !last {
                    StageStdout::Next
                } else if self.mode == StdoutMode::Capture {
                    StageStdout::Capture
                } else {
                    StageStdout::Shell
                },
            };
            let (stdin, drain) = match &self.stdin {
                Some(StdinTarget::File(k)) => (StageStdin::File(*k), self.pending != Pending::Nothing),
                Some(StdinTarget::Heredoc(b)) => (StageStdin::Heredoc(b.clone()), self.pending != Pending::Nothing),
                None => (Self::stdin_from_pending(self.pending), false),
            };
            StagedAction::Spawn { argv, drain, stdin, stdout }
        }
    }

    fn enter(&mut self, i: usize, pending: Pending, terminal: Option<u8>) -> (a: StagedAction)
        requires
            i <= old(self)@.kinds.len(),
        ensures
            (final(self)@, a@) == enter(old(self)@, i as int, pending, terminal),
    {
        proof {
            use_type_invariant(&*self);
        }
        let n = self.kinds.len();
        self.phase = StagedPhase::Wait;
        self.stdin = None;
        self.stdout = None;
        self.pending = pending;
        self.terminal = terminal;
        self.index = i;
        if i >= n {
            return StagedAction::Wait;
        }
        if self.kinds[i] == StageKind::Subshell {
            self.phase = StagedPhase::Subshell;
            let last = i == n - 1;
            StagedAction::RunSubshell {
                index: i,
                stdin: Self::stdin_from_pending(pending),
                stdout: if last { StageStdout::Shell } else { StageStdout::Next },
                mode: if last { self.mode } else { StdoutMode::Capture },
            }
        } else if self.argvs[i].len() == 0 {
            self.phase = StagedPhase::Wait;
            self.finish(Ending::End { kill: true, wait: false, result: CommandResult::Status(0) })
        } else {
            self.phase = StagedPhase::Open;
            StagedAction::OpenRedirects { index: i }
        }
    }

    fn prepare_from(&mut self, i: usize) -> (a: StagedAction)
        requires
            i <= old(self)@.kinds.len(),
        ensures
            (final(self)@, a@) == prepare_from(old(self)@, i as int),
    {
        proof {
            use_type_invariant(&*self);
        }
        let ghost v = self@;
        let n = self.kinds.len();
        let mut j = i;
        while j < n && self.kinds[j] == StageKind::Subshell
            invariant
                i <= j <= n,
                n == self.kinds@.len(),
                self@ == v,
                prepare_from(v, i as int) == prepare_from(v, j as int),
            decreases n - j,
        {
            j += 1;
        }
        if j >= n {
            self.enter(0, Pending::Nothing, None)
        } else {
            self.phase = StagedPhase::Wait;
            self.index = j;
            self.phase = StagedPhase::Prepare;
            StagedAction::Prepare { index: j }
        }
    }

    fn pending_action(&self) -> (a: StagedAction)
        ensures
            a@ == pending_staged_action(self@),
    {
        proof {
            use_type_invariant(self);
        }
        match self.phase {
            StagedPhase::Prepare => StagedAction::Prepare { index: self.index },
            StagedPhase::Open => StagedAction::OpenRedirects { index: self.index },
            StagedPhase::Builtin | StagedPhase::Spawn => self.run_action(),
            StagedPhase::Subshell => {
                let i = self.index;
                let last = i == self.kinds.len() - 1;
                StagedAction::RunSubshell {
                    index: i,
                    stdin: Self::stdin_from_pending(self.pending),
                    stdout: if last { StageStdout::Shell } else { StageStdout::Next },
                    mode: if last { self.mode } else { StdoutMode::Capture },
                }
            },
            StagedPhase::Wait => StagedAction::Wait,
            StagedPhase::Done(e) => self.ending_action(e),
        }
    }

    /// Decides the next step from what the last one returned. An event that
    /// does not answer the pending action changes nothing and that action
    /// is issued again.
    pub fn step(&mut self, event: StagedEvent) -> (a: StagedAction)
        ensures
            (final(self)@, a@) == staged_next(old(self)@, event),
    {
        proof {
            use_type_invariant(&*self);
        }
        let ghost v = self@;
        let ghost e = event;
        let i = self.index;
        let n = self.kinds.len();
        match (self.phase, event) {
            (StagedPhase::Prepare, StagedEvent::Prepared { argv: Ok(a), builtin: b }) => {
                self.argvs[i] = a;
                self.builtin[i] = b;
                proof {
                    assert(self@.argvs =~= v.argvs.update(i as int, words(a@)));
                    assert(self@ == StagedView { argvs: v.argvs.update(i as int, words(a@)), builtin: v.builtin.update(i as int, b), ..v });
                }
                self.prepare_from(i + 1)
            },
            (StagedPhase::Prepare, StagedEvent::Prepared { argv: Err(c), builtin: _ }) =>
                self.finish(Ending::End { kill: false, wait: false, result: CommandResult::Status(c) }),
            (StagedPhase::Open, StagedEvent::Opened(Ok(t))) => {
                self.stdin = t.stdin;
                self.stdout = t.stdout;
                self.phase = if self.builtin[i] { StagedPhase::Builtin } else { StagedPhase::Spawn };
                self.run_action()
            },
            (StagedPhase::Open, StagedEvent::Opened(Err(c))) =>
                self.finish(Ending::End { kill: true, wait: true, result: CommandResult::Status(c) }),
            (StagedPhase::Builtin, StagedEvent::BuiltinDone(s)) => {
                if i == n - 1 {
                    self.enter(i + 1, Pending::Nothing, Some(s))
                } else {
                    let pending = if self.stdout.is_some() { Pending::Nothing } else { Pending::Buffer };
                    let terminal = self.terminal;
                    self.enter(i + 1, pending, terminal)
                }
            },
            (StagedPhase::Spawn, StagedEvent::Spawned) => {
                let last = i == n - 1;
                let piped = self.stdout.is_none() && !last;
                let pending = if piped { Pending::Pipe } else { Pending::Nothing };
                let terminal = self.terminal;
                self.enter(i + 1, pending, terminal)
            },
            (StagedPhase::Spawn, StagedEvent::SpawnFailed(c)) => {
                let terminal = if i == n - 1 { Some(c) } else { self.terminal };
                self.enter(i + 1, Pending::Nothing, terminal)
            },
            (StagedPhase::Subshell, StagedEvent::SubshellDone(r)) => {
                if i == n - 1 {
                    self.finish(Ending::End { kill: false, wait: true, result: r })
                } else {
                    let terminal = self.terminal;
                    self.enter(i + 1, Pending::Buffer, terminal)
                }
            },
            (StagedPhase::Wait, StagedEvent::Waited(WaitResult::Done(s))) => {
                let status = match self.terminal {
                    Some(t) => t,
                    None => s,
                };
                self.finish(Ending::End { kill: false, wait: false, result: CommandResult::Status(status) })
            },
            (StagedPhase::Wait, StagedEvent::Waited(WaitResult::Stopped(s))) =>
                self.finish(Ending::Suspend(CommandResult::Status(s))),
            (_, ev) => {
                let a = self.pending_action();
                proof {
                    assert(staged_next(v, ev) == (v, pending_staged_action(v)));
                }
                a
            },
        }
    }
}

/// The kind of each stage of `pipeline`.
pub open spec fn stage_kinds(pipeline: Pipeline) -> Seq<StageKind> {
    pipeline.commands@.map_values(|c: PipelineCommand| match c {
        PipelineCommand::Simple(_) => StageKind::Simple,
        PipelineCommand::Subshell { .. } => StageKind::Subshell,
    })
}

/// Starts running `pipeline` with incoming status `last_status` and output
/// mode `mode`: the first simple stage is prepared (or, with none, the
/// first stage starts).
pub fn execute_staged(pipeline: &Pipeline, last_status: u8, mode: StdoutMode) -> (r: (StagedRun, StagedAction))
    ensures
        ({
            let n = pipeline.commands@.len();
            let v = StagedView {
                kinds: stage_kinds(*pipeline),
                argvs: Seq::new(n, |k: int| Seq::<Seq<char>>::empty()),
                builtin: Seq::new(n, |k: int| false),
                last_status,
                mode,
                command: render_pipeline_text(*pipeline),
                index: 0,
                pending: Pending::Nothing,
                terminal: None,
                stdin: None,
                stdout: None,
                phase: StagedPhase::Wait,
            };
            (r.0@, r.1@) == prepare_from(v, 0)
        }),
{
    let mut kinds: Vec<StageKind> = Vec::new();
    let mut argvs: Vec<Vec<String>> = Vec::new();
    let mut builtin: Vec<bool> = Vec::new();
    let n = pipeline.commands.len();
    let mut i: usize = 0;
    while i < n
        invariant
            n == pipeline.commands@.len(),
            i <= n,
            kinds@ == stage_kinds(*pipeline).take(i as int),
            argvs@.len() == i,
            forall|k: int| 0 <= k < i ==> #[trigger] argvs@[k]@.len() == 0,
            builtin@ == Seq::new(i as nat, |k: int| false),
        decreases n - i,
    {
        let kind = match &pipeline.commands[i] {
            PipelineCommand::Simple(_) => StageKind::Simple,
            PipelineCommand::Subshell { .. } => StageKind::Subshell,
        };
        kinds.push(kind);
        argvs.push(Vec::new());
        builtin.push(false);
        proof {
            assert(kinds@ =~= stage_kinds(*pipeline).take(i + 1));
            assert(builtin@ =~= Seq::new((i + 1) as nat, |k: int| false));
        }
        i += 1;
    }
    let command = render_pipeline(pipeline);
    let mut run = StagedRun {
        kinds,
        argvs,
        builtin,
        last_status,
        mode,
        command,
        index: 0,
        pending: Pending::Nothing,
        terminal: None,
        stdin: None,
        stdout: None,
        phase: StagedPhase::Wait,
    };
    proof {
        assert(stage_kinds(*pipeline).take(n as int) =~= stage_kinds(*pipeline));
        assert forall|k: int| 0 <= k < n implies #[trigger] run@.argvs[k] == Seq::<Seq<char>>::empty() by {
            assert(words(run.argvs@[k]@) =~= Seq::<Seq<char>>::empty());
        }
        assert(run@.argvs =~= Seq::new(n as nat, |k: int| Seq::<Seq<char>>::empty()));
    }
    let a = run.prepare_from(0);
    (run, a)
}

} // verus!
