//! Parsed command lines as the executor receives them.

use vstd::prelude::*;

verus! {

/// The operator of a redirection.
#[derive(PartialEq, Eq, Structural, Clone, Copy, Debug)]
pub enum RedirectKind {
    /// `<`
    Read,
    /// `>`
    Write,
    /// `>>`
    Append,
    /// `<<`
    Heredoc,
}

/// One redirection: its operator and its raw (unexpanded) target word.
/// For a heredoc, `path` is the raw delimiter word.
#[derive(Clone, Debug)]
pub struct Redirect {
    pub kind: RedirectKind,
    pub path: String,
}

/// A simple command: raw argument words and its redirections.
#[derive(Clone, Debug)]
pub struct SimpleCommand {
    pub argv: Vec<String>,
    pub redirects: Vec<Redirect>,
}

/// One stage of a pipeline.
#[derive(Debug)]
pub enum PipelineCommand {
    Simple(SimpleCommand),
    /// `( list )` with redirections on the group.
    Subshell { list: CommandList, redirects: Vec<Redirect> },
}

/// Stages joined by `|`; `background` is set for a trailing `&`.
#[derive(Debug)]
pub struct Pipeline {
    pub commands: Vec<PipelineCommand>,
    pub background: bool,
}

/// Pipelines separated by `;` (or `&`).
#[derive(Debug)]
pub struct CommandList {
    pub pipelines: Vec<Pipeline>,
}

impl PipelineCommand {
    /// The redirections attached to this stage.
    pub open spec fn spec_redirects(self) -> Seq<Redirect> {
        match self {
            PipelineCommand::Simple(s) => s.redirects@,
            PipelineCommand::Subshell { redirects, .. } => redirects@,
        }
    }

    /// The redirections attached to this stage.
    pub fn redirects(&self) -> (r: &Vec<Redirect>)
        ensures
            r@ == self.spec_redirects(),
    {
        match self {
            PipelineCommand::Simple(s) => &s.redirects,
            PipelineCommand::Subshell { redirects, .. } => redirects,
        }
    }
}

} // verus!
