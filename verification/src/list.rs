//! `;`-separated command lists: which kind of run each pipeline needs,
//! and the list's status.

use vstd::prelude::*;
use crate::ast::{CommandList, Pipeline, PipelineCommand};
use crate::command::CommandResult;

verus! {

/// How a pipeline is run.
#[derive(PartialEq, Eq, Structural, Clone, Copy, Debug)]
pub enum PipelineShape {
    /// Trailing `&`: launched as a background job.
    Background,
    /// No stages: the incoming status is kept.
    Empty,
    /// One simple command.
    Simple,
    /// One `( … )` group.
    Subshell,
    /// Two or more stages joined by `|`.
    Piped,
}

/// The shape of a pipeline.
pub open spec fn shape_of(p: Pipeline) -> PipelineShape {
    if p.background {
        PipelineShape::Background
    } else if p.commands@.len() == 0 {
        PipelineShape::Empty
    } else if p.commands@.len() == 1 {
        match p.commands@[0] {
            PipelineCommand::Simple(_) => PipelineShape::Simple,
            PipelineCommand::Subshell { .. } => PipelineShape::Subshell,
        }
    } else {
        PipelineShape::Piped
    }
}

/// Classifies a pipeline for execution.
pub fn pipeline_shape(pipeline: &Pipeline) -> (s: PipelineShape)
    ensures
        s == shape_of(*pipeline),
{
    if pipeline.background {
        return PipelineShape::Background;
    }
    match pipeline.commands.len() {
        0 => PipelineShape::Empty,
        1 => match &pipeline.commands[0] {
            PipelineCommand::Simple(_) => PipelineShape::Simple,
            PipelineCommand::Subshell { .. } => PipelineShape::Subshell,
        },
        _ => PipelineShape::Piped,
    }
}

/// What the caller does next in a list.
#[derive(PartialEq, Eq, Structural, Clone, Copy, Debug)]
pub enum ListAction {
    /// Run pipeline `index` with incoming status `last_status`.
    RunPipeline { index: usize, last_status: u8 },
    /// The list is done.
    Finished(CommandResult),
}

/// A command list in progress: pipelines run in order, each with the
/// previous one's status; `exit` ends the list at once.
pub struct ListRun {
    count: usize,
    index: usize,
    last_status: u8,
    done: bool,
}

/// The model of a list run: pipelines in the list, the one running (or
/// the number run), the incoming status, and whether it is done.
pub struct ListView {
    pub count: nat,
    pub index: nat,
    pub last_status: u8,
    pub done: bool,
}

impl View for ListRun {
    type V = ListView;

    closed spec fn view(&self) -> ListView {
        ListView { count: self.count as nat, index: self.index as nat, last_status: self.last_status, done: self.done }
    }
}

/// One decision after pipeline `v.index` ended with `r`.
pub open spec fn list_next(v: ListView, r: CommandResult) -> (ListView, ListAction) {
    if v.done {
        (v, ListAction::Finished(CommandResult::Status(v.last_status)))
    } else {
        match r {
            CommandResult::Exit(c) => (ListView { count: v.count, index: v.index, last_status: v.last_status, done: true },
                ListAction::Finished(CommandResult::Exit(c))),
            CommandResult::Status(c) => if v.index + 1 >= v.count {
                (ListView { count: v.count, index: v.count, last_status: c, done: true },
                    ListAction::Finished(CommandResult::Status(c)))
            } else {
                (ListView { count: v.count, index: v.index + 1, last_status: c, done: false },
                    ListAction::RunPipeline { index: (v.index + 1) as usize, last_status: c })
            },
        }
    }
}

impl ListRun {
    #[verifier::type_invariant]
    spec fn well_formed(self) -> bool {
        &&& self.index <= self.count
        &&& !self.done ==> self.index < self.count
    }

    /// Reports how pipeline `index` ended. After the list is done, further
    /// reports change nothing.
    pub fn step(&mut self, result: CommandResult) -> (a: ListAction)
        ensures
            (final(self)@, a) == list_next(old(self)@, result),
    {
        proof {
            use_type_invariant(&*self);
        }
        if self.done {
            return ListAction::Finished(CommandResult::Status(self.last_status));
        }
        match result {
            CommandResult::Exit(c) => {
                self.done = true;
                ListAction::Finished(CommandResult::Exit(c))
            },
            CommandResult::Status(c) => {
                self.last_status = c;
                if self.index + 1 >= self.count {
                    self.done = true;
                    self.index = self.count;
                    ListAction::Finished(CommandResult::Status(c))
                } else {
                    self.index = self.index + 1;
                    ListAction::RunPipeline { index: self.index, last_status: c }
                }
            },
        }
    }
}

/// Starts running `list` with incoming status `last_status`; an empty
/// list ends at once with that status.
pub fn execute_list_with(list: &CommandList, last_status: u8) -> (r: (ListRun, ListAction))
    ensures
        r.0@.count == list.pipelines@.len(),
        r.0@.index == 0,
        r.0@.last_status == last_status,
        r.0@.done == (list.pipelines@.len() == 0),
        list.pipelines@.len() == 0 ==> r.1 == ListAction::Finished(CommandResult::Status(last_status)),
        list.pipelines@.len() > 0 ==> r.1 == (ListAction::RunPipeline { index: 0, last_status }),
{
    let count = list.pipelines.len();
    if count == 0 {
        (ListRun { count, index: 0, last_status, done: true }, ListAction::Finished(CommandResult::Status(last_status)))
    } else {
        (ListRun { count, index: 0, last_status, done: false }, ListAction::RunPipeline { index: 0, last_status })
    }
}

/// What running a simple command does after its words are expanded: an
/// expansion failure ends it with that status, no words keep the incoming
/// status, otherwise the words are dispatched.
#[derive(Debug)]
pub enum SimplePlan {
    Done(CommandResult),
    Dispatch(Vec<String>),
}

/// Decides how a simple command runs once its words are expanded.
pub fn run_simple(expanded: Result<Vec<String>, u8>, last_status: u8) -> (p: SimplePlan)
    ensures
        match expanded {
            Err(code) => p matches SimplePlan::Done(r) && r == CommandResult::Status(code),
            Ok(argv) => if argv@.len() == 0 {
                p matches SimplePlan::Done(r) && r == CommandResult::Status(last_status)
            } else {
                p matches SimplePlan::Dispatch(a) && a@ == argv@
            },
        },
{
    match expanded {
        Err(code) => SimplePlan::Done(CommandResult::Status(code)),
        Ok(argv) => {
            if argv.len() == 0 {
                SimplePlan::Done(CommandResult::Status(last_status))
            } else {
                SimplePlan::Dispatch(argv)
            }
        },
    }
}

} // verus!
