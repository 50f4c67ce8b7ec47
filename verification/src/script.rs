//! The script fed to an isolated shell process that runs a pipeline in
//! the background: the pipeline's source line, then each heredoc body
//! followed by its delimiter line.

use vstd::prelude::*;
use crate::ast::{CommandList, Pipeline, PipelineCommand, Redirect, RedirectKind};
use crate::collect::views;
use crate::heredoc::{command_heredocs, commands_heredocs, heredoc_words, list_heredocs, missing_body_message, pipeline_heredocs, pipelines_heredocs, HeredocState};
use crate::text::{chars_of, push_str, string_push};

verus! {

/// A heredoc body, a line ending if it lacks one, the delimiter, and a
/// line ending.
pub open spec fn heredoc_block(body: Seq<char>, delimiter: Seq<char>) -> Seq<char> {
    body + (if body.len() > 0 && body.last() == '\n' { Seq::empty() } else { seq!['\n'] }) + delimiter
        + seq!['\n']
}

/// The blocks for each delimiter with its body, in order.
pub open spec fn script_tail(delimiters: Seq<Seq<char>>, bodies: Seq<Seq<char>>) -> Seq<char>
    decreases delimiters.len(),
{
    if delimiters.len() == 0 {
        Seq::empty()
    } else {
        script_tail(delimiters.drop_last(), bodies.drop_last()) + heredoc_block(bodies.last(), delimiters.last())
    }
}

/// `bodies` with the entries in `[from, to)` emptied.
pub open spec fn emptied(bodies: Seq<Seq<char>>, from: int, to: int) -> Seq<Seq<char>> {
    Seq::new(bodies.len(), |j: int| if from <= j < to { Seq::<char>::empty() } else { bodies[j] })
}

/// Appends the heredoc delimiters (in source order, as they are collected) of `pipeline` to `out`.
pub fn collect_pipeline_heredocs(pipeline: &Pipeline, out: &mut Vec<String>)
    ensures
        views(final(out)@) == views(old(out)@) + pipeline_heredocs(*pipeline),
    decreases pipeline,
{
    let n = pipeline.commands.len();
    let mut i: usize = 0;
    while i < n
        invariant
            n == pipeline.commands@.len(),
            i <= n,
            views(out@) == views(old(out)@) + commands_heredocs(pipeline.commands@.take(i as int)),
        decreases n - i,
    {
        collect_command_heredocs(&pipeline.commands[i], out);
        proof {
            let t = pipeline.commands@.take(i + 1);
            assert(t.drop_last() =~= pipeline.commands@.take(i as int));
            assert(views(out@) =~= views(old(out)@) + commands_heredocs(t));
        }
        i += 1;
    }
    assert(pipeline.commands@.take(n as int) =~= pipeline.commands@);
}

fn collect_command_heredocs(command: &PipelineCommand, out: &mut Vec<String>)
    ensures
        views(final(out)@) == views(old(out)@) + command_heredocs(*command),
    decreases command,
{
    let redirects = match command {
        PipelineCommand::Simple(simple) => &simple.redirects,
        PipelineCommand::Subshell { list, redirects } => {
            collect_list_heredocs(list, out);
            redirects
        },
    };
    let ghost mid = views(out@);
    let n = redirects.len();
    let mut i: usize = 0;
    while i < n
        invariant
            n == redirects@.len(),
            i <= n,
            views(out@) == mid + heredoc_words(redirects@.take(i as int)),
        decreases n - i,
    {
        let ghost before = views(out@);
        if redirects[i].kind == RedirectKind::Heredoc {
            out.push(redirects[i].path.clone());
            assert(views(out@) =~= before.push(redirects@[i as int].path@));
        }
        proof {
            let t = redirects@.take(i + 1);
            assert(t.drop_last() =~= redirects@.take(i as int));
            assert(views(out@) =~= mid + heredoc_words(t));
        }
        i += 1;
    }
    assert(redirects@.take(n as int) =~= redirects@);
    assert(views(out@) =~= views(old(out)@) + command_heredocs(*command));
}

/// Appends the heredoc delimiters (in source order, as they are collected) of every pipeline of `list`.
pub fn collect_list_heredocs(list: &CommandList, out: &mut Vec<String>)
    ensures
        views(final(out)@) == views(old(out)@) + list_heredocs(*list),
    decreases list,
{
    let n = list.pipelines.len();
    let mut i: usize = 0;
    while i < n
        invariant
            n == list.pipelines@.len(),
            i <= n,
            views(out@) == views(old(out)@) + pipelines_heredocs(list.pipelines@.take(i as int)),
        decreases n - i,
    {
        collect_pipeline_heredocs(&list.pipelines[i], out);
        proof {
            let t = list.pipelines@.take(i + 1);
            assert(t.drop_last() =~= list.pipelines@.take(i as int));
            assert(views(out@) =~= views(old(out)@) + pipelines_heredocs(t));
        }
        i += 1;
    }
    assert(list.pipelines@.take(n as int) =~= list.pipelines@);
}

/// The script for `pipeline` rendered as `source`: the source line, then
/// for each heredoc (in source order, the order its body was collected in) its body and delimiter line. Bodies are
/// taken from `heredocs`; when they run out, `false\n` is returned
/// instead (and `nexus: missing heredoc body` is written to `err`).
pub fn build_script(pipeline: &Pipeline, source: &str, heredocs: &mut HeredocState, err: &mut String) -> (script: String)
    ensures
        ({
            let ds = pipeline_heredocs(*pipeline);
            let i0 = old(heredocs).spec_index() as int;
            let bs = old(heredocs).spec_bodies();
            if i0 + ds.len() <= bs.len() {
                &&& script@ == source@ + seq!['\n'] + script_tail(ds, bs.subrange(i0, i0 + ds.len()))
                &&& final(heredocs).spec_index() == i0 + ds.len()
                &&& final(heredocs).spec_bodies() == emptied(bs, i0, i0 + ds.len())
                &&& final(err)@ == old(err)@
            } else {
                &&& script@ == "false\n"@
                &&& final(heredocs).spec_index() == bs.len()
                &&& final(heredocs).spec_bodies() == emptied(bs, i0, bs.len() as int)
                &&& final(err)@ == old(err)@ + missing_body_message()
            }
        }),
{
    let mut delimiters: Vec<String> = Vec::new();
    collect_pipeline_heredocs(pipeline, &mut delimiters);
    let ghost ds = pipeline_heredocs(*pipeline);
    let ghost i0 = heredocs.spec_index() as int;
    let ghost bs = heredocs.spec_bodies();
    assert(views(delimiters@) =~= ds);
    let i = heredocs.index();
    let mut script = String::new();
    push_str(&mut script, source);
    string_push(&mut script, '\n');
    let n = delimiters.len();
    let mut k: usize = 0;
    proof {
        assert(ds.take(0) =~= Seq::<Seq<char>>::empty());
        assert(emptied(bs, i0, i0) =~= bs);
    }
    while k < n
        invariant
            n == ds.len(),
            ds == pipeline_heredocs(*pipeline),
            views(delimiters@) == ds,
            k <= n,
            i0 == old(heredocs).spec_index(),
            bs == old(heredocs).spec_bodies(),
            i0 + k <= bs.len(),
            heredocs.spec_index() == i0 + k,
            heredocs.spec_bodies() == emptied(bs, i0, i0 + k),
            err@ == old(err)@,
            script@ == source@ + seq!['\n'] + script_tail(ds.take(k as int), bs.subrange(i0, i0 + k)),
        decreases n - k,
    {
        let ghost before = script@;
        let body = match heredocs.take_next(err) {
            Ok(body) => body,
            Err(_) => {
                let f = String::from_str("false\n");
                return f;
            },
        };
        let cs = chars_of(body.as_str());
        push_str(&mut script, body.as_str());
        if !(cs.len() > 0 && cs[cs.len() - 1] == '\n') {
            string_push(&mut script, '\n');
        }
        push_str(&mut script, delimiters[k].as_str());
        string_push(&mut script, '\n');
        proof {
            assert(body@ == bs[i0 + k]);
            assert(heredocs.spec_bodies() =~= emptied(bs, i0, i0 + k + 1));
            let t = ds.take(k + 1);
            let u = bs.subrange(i0, i0 + k + 1);
            assert(t.drop_last() =~= ds.take(k as int));
            assert(u.drop_last() =~= bs.subrange(i0, i0 + k));
            assert(t.last() == delimiters@[k as int]@);
            assert(u.last() == body@);
            assert(script@ =~= before + heredoc_block(body@, delimiters@[k as int]@));
            assert(script@ =~= source@ + seq!['\n'] + script_tail(t, u));
        }
        k += 1;
    }
    assert(ds.take(n as int) =~= ds);
    script
}

} // verus!
