//! Source rendering of parsed commands, used to launch an isolated
//! shell process for a background pipeline.

use vstd::prelude::*;
use crate::ast::{CommandList, Pipeline, PipelineCommand, Redirect, RedirectKind, SimpleCommand};
use crate::text::{push_str, string_push};

verus! {

/// The operator text of a redirection.
pub open spec fn redirect_text(kind: RedirectKind) -> Seq<char> {
    match kind {
        RedirectKind::Read => seq!['<'],
        RedirectKind::Write => seq!['>'],
        RedirectKind::Append => seq!['>', '>'],
        RedirectKind::Heredoc => seq!['<', '<'],
    }
}

/// ` OP path` for each redirection, in order.
pub open spec fn render_redirects(rs: Seq<Redirect>) -> Seq<char>
    decreases rs.len(),
{
    if rs.len() == 0 {
        Seq::empty()
    } else {
        render_redirects(rs.drop_last()) + seq![' '] + redirect_text(rs.last().kind) + seq![' ']
            + rs.last().path@
    }
}

/// The words joined by single spaces.
pub open spec fn join_spaced(ws: Seq<String>) -> Seq<char>
    decreases ws.len(),
{
    if ws.len() == 0 {
        Seq::empty()
    } else if ws.len() == 1 {
        ws[0]@
    } else {
        join_spaced(ws.drop_last()) + seq![' '] + ws.last()@
    }
}

/// A simple command: its words, then its redirections.
pub open spec fn render_simple_text(c: SimpleCommand) -> Seq<char> {
    join_spaced(c.argv@) + render_redirects(c.redirects@)
}

/// One pipeline stage; a subshell renders as `( list )` plus redirections.
pub open spec fn render_command_text(c: PipelineCommand) -> Seq<char>
    decreases c,
{
    match c {
        PipelineCommand::Simple(s) => render_simple_text(s),
        PipelineCommand::Subshell { list, redirects } => seq!['(', ' '] + render_list_text(list)
            + seq![' ', ')'] + render_redirects(redirects@),
    }
}

/// Stages joined by ` | `.
pub open spec fn render_commands_text(cs: Seq<PipelineCommand>) -> Seq<char>
    decreases cs,
{
    if cs.len() == 0 {
        Seq::empty()
    } else if cs.len() == 1 {
        render_command_text(cs[0])
    } else {
        render_commands_text(cs.drop_last()) + seq![' ', '|', ' '] + render_command_text(cs.last())
    }
}

/// A pipeline's stages joined by ` | `.
pub open spec fn render_pipeline_text(p: Pipeline) -> Seq<char>
    decreases p,
{
    render_commands_text(p.commands@)
}

/// What follows a pipeline in a list: ` &` when it runs in the
/// background, else ` ;` unless it is the last one.
pub open spec fn pipeline_suffix(p: Pipeline, is_last: bool) -> Seq<char> {
    if p.background {
        seq![' ', '&']
    } else if !is_last {
        seq![' ', ';']
    } else {
        Seq::empty()
    }
}

/// The first `ps.len()` pipelines of a list of `n`.
pub open spec fn render_pipelines_text(ps: Seq<Pipeline>, n: int) -> Seq<char>
    decreases ps,
{
    if ps.len() == 0 {
        Seq::empty()
    } else {
        render_pipelines_text(ps.drop_last(), n) + render_pipeline_text(ps.last())
            + pipeline_suffix(ps.last(), ps.len() >= n)
    }
}

/// A whole list.
pub open spec fn render_list_text(l: CommandList) -> Seq<char>
    decreases l,
{
    render_pipelines_text(l.pipelines@, l.pipelines@.len() as int)
}

/// Renders `list` back to source text.
pub fn render_list(list: &CommandList) -> (s: String)
    ensures
        s@ == render_list_text(*list),
    decreases list,
{
    let mut source = String::new();
    let n = list.pipelines.len();
    let mut index: usize = 0;
    while index < n
        invariant
            n == list.pipelines@.len(),
            index <= n,
            source@ == render_pipelines_text(list.pipelines@.take(index as int), n as int),
        decreases n - index,
    {
        let pipeline = &list.pipelines[index];
        let text = render_pipeline(pipeline);
        push_str(&mut source, text.as_str());
        if pipeline.background {
            string_push(&mut source, ' ');
            string_push(&mut source, '&');
        } else if index + 1 < n {
            string_push(&mut source, ' ');
            string_push(&mut source, ';');
        }
        proof {
            let t = list.pipelines@.take(index + 1);
            assert(t.drop_last() =~= list.pipelines@.take(index as int));
        }
        index += 1;
    }
    assert(list.pipelines@.take(n as int) =~= list.pipelines@);
    source
}

/// Renders a pipeline's stages joined by ` | `.
pub fn render_pipeline(pipeline: &Pipeline) -> (s: String)
    ensures
        s@ == render_pipeline_text(*pipeline),
    decreases pipeline,
{
    let mut source = String::new();
    let n = pipeline.commands.len();
    let mut index: usize = 0;
    while index < n
        invariant
            n == pipeline.commands@.len(),
            index <= n,
            source@ == render_commands_text(pipeline.commands@.take(index as int)),
        decreases n - index,
    {
        if index > 0 {
            push_str(&mut source, " | ");
        }
        let text = render_command(&pipeline.commands[index]);
        push_str(&mut source, text.as_str());
        proof {
            reveal_strlit(" | ");
            let t = pipeline.commands@.take(index + 1);
            assert(t.drop_last() =~= pipeline.commands@.take(index as int));
        }
        index += 1;
    }
    assert(pipeline.commands@.take(n as int) =~= pipeline.commands@);
    source
}

fn render_command(command: &PipelineCommand) -> (s: String)
    ensures
        s@ == render_command_text(*command),
    decreases command,
{
    match command {
        PipelineCommand::Simple(simple) => render_simple(simple),
        PipelineCommand::Subshell { list, redirects } => {
            let mut source = String::new();
            push_str(&mut source, "( ");
            let inner = render_list(list);
            push_str(&mut source, inner.as_str());
            push_str(&mut source, " )");
            append_redirects(&mut source, redirects);
            proof {
                reveal_strlit("( ");
                reveal_strlit(" )");
            }
            source
        },
    }
}

fn render_simple(simple: &SimpleCommand) -> (s: String)
    ensures
        s@ == render_simple_text(*simple),
{
    let mut source = String::new();
    let n = simple.argv.len();
    let mut index: usize = 0;
    while index < n
        invariant
            n == simple.argv@.len(),
            index <= n,
            source@ == join_spaced(simple.argv@.take(index as int)),
        decreases n - index,
    {
        if index > 0 {
            string_push(&mut source, ' ');
        }
        push_str(&mut source, simple.argv[index].as_str());
        proof {
            let t = simple.argv@.take(index + 1);
            assert(t.drop_last() =~= simple.argv@.take(index as int));
        }
        index += 1;
    }
    assert(simple.argv@.take(n as int) =~= simple.argv@);
    append_redirects(&mut source, &simple.redirects);
    source
}

fn append_redirects(source: &mut String, redirects: &Vec<Redirect>)
    ensures
        final(source)@ == old(source)@ + render_redirects(redirects@),
{
    let n = redirects.len();
    let mut index: usize = 0;
    while index < n
        invariant
            n == redirects@.len(),
            index <= n,
            source@ == old(source)@ + render_redirects(redirects@.take(index as int)),
        decreases n - index,
    {
        let redirect = &redirects[index];
        string_push(source, ' ');
        push_str(source, redirect_symbol(redirect.kind));
        string_push(source, ' ');
        push_str(source, redirect.path.as_str());
        proof {
            let t = redirects@.take(index + 1);
            assert(t.drop_last() =~= redirects@.take(index as int));
        }
        index += 1;
    }
    assert(redirects@.take(n as int) =~= redirects@);
}

fn redirect_symbol(kind: RedirectKind) -> (s: &'static str)
    ensures
        s@ == redirect_text(kind),
{
    proof {
        reveal_strlit("<");
        reveal_strlit(">");
        reveal_strlit(">>");
        reveal_strlit("<<");
    }
    match kind {
        RedirectKind::Read => "<",
        RedirectKind::Write => ">",
        RedirectKind::Append => ">>",
        RedirectKind::Heredoc => "<<",
    }
}

} // verus!
