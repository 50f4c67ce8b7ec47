use lib::ast::{CommandList, Pipeline, PipelineCommand, Redirect, RedirectKind, SimpleCommand};
use lib::render::{render_list, render_pipeline};

pub fn words(ws: &[&str]) -> Vec<String> {
    ws.iter().map(|w| w.to_string()).collect()
}

pub fn redirect(kind: RedirectKind, path: &str) -> Redirect {
    Redirect { kind, path: path.to_string() }
}

pub fn simple(ws: &[&str], redirects: Vec<Redirect>) -> PipelineCommand {
    PipelineCommand::Simple(SimpleCommand { argv: words(ws), redirects })
}

pub fn pipeline(commands: Vec<PipelineCommand>, background: bool) -> Pipeline {
    Pipeline { commands, background }
}

#[test]
fn renders_simple_command_with_redirects() {
    let p = pipeline(
        vec![simple(
            &["sort", "-r"],
            vec![redirect(RedirectKind::Read, "in.txt"), redirect(RedirectKind::Append, "out.txt")],
        )],
        false,
    );
    assert_eq!(render_pipeline(&p), "sort -r < in.txt >> out.txt");
}

#[test]
fn renders_pipeline_stages_joined_by_bars() {
    let p = pipeline(
        vec![simple(&["ls"], vec![]), simple(&["grep", "x"], vec![]), simple(&["wc", "-l"], vec![redirect(RedirectKind::Write, "n")])],
        false,
    );
    assert_eq!(render_pipeline(&p), "ls | grep x | wc -l > n");
}

#[test]
fn renders_list_separators_and_background() {
    let list = CommandList {
        pipelines: vec![
            pipeline(vec![simple(&["a"], vec![])], false),
            pipeline(vec![simple(&["b"], vec![])], true),
            pipeline(vec![simple(&["c"], vec![])], false),
            pipeline(vec![simple(&["d"], vec![])], true),
        ],
    };
    assert_eq!(render_list(&list), "a ;b &c ;d &");
}

#[test]
fn renders_subshell_with_heredoc() {
    let inner = CommandList { pipelines: vec![pipeline(vec![simple(&["cat"], vec![])], false)] };
    let p = pipeline(
        vec![
            PipelineCommand::Subshell { list: inner, redirects: vec![redirect(RedirectKind::Heredoc, "EOF")] },
            simple(&["tr", "a", "b"], vec![]),
        ],
        false,
    );
    assert_eq!(render_pipeline(&p), "( cat ) << EOF | tr a b");
}

#[test]
fn renders_empty_list_and_empty_pipeline() {
    assert_eq!(render_list(&CommandList { pipelines: vec![] }), "");
    assert_eq!(render_pipeline(&pipeline(vec![], false)), "");
}
