use lib::ast::{CommandList, Pipeline, PipelineCommand, Redirect, RedirectKind, SimpleCommand};
use lib::collect::{collect_heredoc_bodies, CollectAction, CollectEvent};
use lib::expand::{expand_word_for_exec, LexError};
use lib::heredoc::HeredocState;
use lib::script::{build_script, collect_list_heredocs, collect_pipeline_heredocs};

fn heredoc(path: &str) -> Redirect {
    Redirect { kind: RedirectKind::Heredoc, path: path.to_string() }
}

fn cmd(argv: &[&str], redirects: Vec<Redirect>) -> PipelineCommand {
    PipelineCommand::Simple(SimpleCommand { argv: argv.iter().map(|s| s.to_string()).collect(), redirects })
}

/// Runs a collection: delimiter words expand through `expand`, lines come
/// from `input`. Gives the result, the error text, and the lines read.
fn collect(list: &CommandList, expand: &dyn Fn(&str) -> Result<Vec<String>, LexError>, input: &[&str]) -> (Result<Vec<String>, u8>, String, usize) {
    let (mut run, mut action) = collect_heredoc_bodies(list);
    let mut err = String::new();
    let mut read = 0;
    loop {
        let event = match action {
            CollectAction::Expand { raw } => CollectEvent::Expanded(expand(&raw)),
            CollectAction::ReadLine => {
                let line = input.get(read).map(|l| l.to_string());
                if line.is_some() {
                    read += 1;
                }
                CollectEvent::Line(line)
            }
            CollectAction::Done(result) => return (result, err, read),
        };
        action = run.step(event, &mut err);
    }
}

/// Quotes and parameters of an environment holding `X=ND`; `$(echo E)`
/// stands for a command substitution that prints `E`, `$(false)` for one
/// that fails; spaces split fields.
fn shell_expand(raw: &str) -> Result<Vec<String>, LexError> {
    if raw == "$(echo E)" {
        return Ok(vec!["E".to_string()]);
    }
    if raw == "$(false)" {
        return Err(LexError::CommandSubstitution);
    }
    let mut env = lib::env::ShellEnvironment::new();
    env.set("X", "ND");
    expand_word_for_exec(raw, &env, 0).map(|w| w.split(' ').filter(|f| !f.is_empty()).map(|f| f.to_string()).collect())
}

fn one(delims: &[&str]) -> CommandList {
    CommandList {
        pipelines: vec![Pipeline { commands: vec![cmd(&["cat"], delims.iter().map(|d| heredoc(d)).collect())], background: false }],
    }
}

fn strings(ss: &[&str]) -> Vec<String> {
    ss.iter().map(|s| s.to_string()).collect()
}

#[test]
fn take_next_hands_out_bodies_in_order() {
    let mut st = HeredocState::new(strings(&["one\n", "two\n"]));
    let mut err = String::new();
    assert_eq!(st.take_next(&mut err), Ok("one\n".to_string()));
    assert_eq!(st.index(), 1);
    assert_eq!(st.take_next(&mut err), Ok("two\n".to_string()));
    assert_eq!(err, "");
    assert_eq!(st.take_next(&mut err), Err(1));
    assert_eq!(err, "nexus: missing heredoc body\n");
    assert_eq!(st.index(), 2);
}

#[test]
fn discard_pipeline_skips_its_bodies_and_stops_at_the_end() {
    let p = Pipeline {
        commands: vec![
            cmd(&["cat"], vec![heredoc("A"), Redirect { kind: RedirectKind::Write, path: "f".to_string() }, heredoc("B")]),
            PipelineCommand::Subshell {
                list: CommandList { pipelines: vec![Pipeline { commands: vec![cmd(&["cat"], vec![heredoc("C")])], background: false }] },
                redirects: vec![],
            },
        ],
        background: false,
    };
    let mut st = HeredocState::new(strings(&["a", "b", "c", "d"]));
    st.discard_pipeline(&p);
    assert_eq!(st.index(), 3);
    let mut err = String::new();
    assert_eq!(st.take_next(&mut err), Ok("d".to_string()));
    let mut short = HeredocState::new(strings(&["x"]));
    short.discard_pipeline(&p);
    assert_eq!(short.index(), 1);
}

#[test]
fn script_carries_bodies_and_delimiters() {
    let p = Pipeline { commands: vec![cmd(&["cat"], vec![heredoc("EOF")]), cmd(&["wc"], vec![heredoc("Z")])], background: true };
    let mut st = HeredocState::new(strings(&["hello\n", "no newline"]));
    let mut err = String::new();
    let script = build_script(&p, "cat << EOF | wc << Z", &mut st, &mut err);
    assert_eq!(script, "cat << EOF | wc << Z\nhello\nEOF\nno newline\nZ\n");
    assert_eq!(st.index(), 2);
    assert_eq!(err, "");
}

#[test]
fn script_is_false_when_bodies_are_missing() {
    let p = Pipeline { commands: vec![cmd(&["cat"], vec![heredoc("A"), heredoc("B")])], background: true };
    let mut st = HeredocState::new(strings(&["only\n"]));
    let mut err = String::new();
    assert_eq!(build_script(&p, "cat << A << B", &mut st, &mut err), "false\n");
    assert_eq!(err, "nexus: missing heredoc body\n");
    assert_eq!(st.index(), 1);
}

#[test]
fn script_order_puts_inner_list_first() {
    let inner = CommandList { pipelines: vec![Pipeline { commands: vec![cmd(&["cat"], vec![heredoc("IN")])], background: false }] };
    let p = Pipeline { commands: vec![PipelineCommand::Subshell { list: inner, redirects: vec![heredoc("OUT")] }], background: true };
    let mut out = Vec::new();
    collect_pipeline_heredocs(&p, &mut out);
    assert_eq!(out, strings(&["IN", "OUT"]));
    let list = CommandList { pipelines: vec![p] };
    let mut all = vec!["first".to_string()];
    collect_list_heredocs(&list, &mut all);
    assert_eq!(all, strings(&["first", "IN", "OUT"]));
}

#[test]
fn entering_a_group_without_own_heredocs_changes_nothing() {
    let inner = CommandList { pipelines: vec![Pipeline { commands: vec![cmd(&["cat"], vec![heredoc("A")])], background: false }] };
    let mut st = HeredocState::new(strings(&["a\n", "later\n"]));
    st.enter_group(&inner, &vec![]);
    let mut err = String::new();
    assert_eq!(st.take_next(&mut err), Ok("a\n".to_string()));
    assert_eq!(st.take_next(&mut err), Ok("later\n".to_string()));
}

#[test]
fn collects_body_up_to_delimiter_line() {
    let (r, err, read) = collect(&one(&["EOF"]), &shell_expand, &["line 1\n", "line 2\n", "EOF\n", "after\n"]);
    assert_eq!(r, Ok(strings(&["line 1\nline 2\n"])));
    assert_eq!(read, 3);
    assert_eq!(err, "");
}

#[test]
fn delimiter_is_the_first_field_of_the_expanded_word() {
    let (r, _, _) = collect(&one(&["'E'$X"]), &shell_expand, &["body\r\n", "END\r\n"]);
    assert_eq!(r, Ok(strings(&["body\r\n"])));
    let (r2, _, read) = collect(&one(&["$(echo E)"]), &shell_expand, &["x\n", "$(echo E)\n", "E\n", "more\n"]);
    assert_eq!(r2, Ok(strings(&["x\n$(echo E)\n"])));
    assert_eq!(read, 3);
    let (r3, _, _) = collect(&one(&["\"A B\"x C"]), &shell_expand, &["1\n", "A\n", "2\n"]);
    assert_eq!(r3, Ok(strings(&["1\n"])));
}

#[test]
fn end_of_input_keeps_partial_body_with_warning() {
    let (r, err, _) = collect(&one(&["STOP", "$(echo E)"]), &shell_expand, &["a\n", "b"]);
    assert_eq!(r, Ok(strings(&["a\nb", ""])));
    assert_eq!(
        err,
        "nexus: warning: here-document delimited by end-of-file (wanted `STOP`)\nnexus: warning: here-document delimited by end-of-file (wanted `E`)\n"
    );
}

#[test]
fn bodies_follow_source_order() {
    let inner = CommandList { pipelines: vec![Pipeline { commands: vec![cmd(&["cat"], vec![heredoc("IN")])], background: false }] };
    let list = CommandList {
        pipelines: vec![
            Pipeline { commands: vec![PipelineCommand::Subshell { list: inner, redirects: vec![heredoc("OUT")] }], background: false },
            Pipeline { commands: vec![cmd(&["cat"], vec![heredoc("LAST")])], background: false },
        ],
    };
    let (r, _, _) = collect(&list, &shell_expand, &["i\n", "IN\n", "o\n", "OUT\n", "l\n", "LAST\n"]);
    assert_eq!(r, Ok(strings(&["i\n", "o\n", "l\n"])));
}

#[test]
fn failing_delimiter_stops_collection() {
    let (r, err, read) = collect(&one(&["A", "$(false)", "C"]), &shell_expand, &["x\n", "A\n", "y\n", "C\n"]);
    assert_eq!(r, Err(1));
    assert_eq!(err, "nexus: command substitution failed\n");
    assert_eq!(read, 2);
    let (r2, err2, read2) = collect(&one(&["'bad"]), &shell_expand, &["x\n"]);
    assert_eq!(r2, Err(1));
    assert_eq!(err2, "nexus: unclosed quote\n");
    assert_eq!(read2, 0);
}

#[test]
fn earlier_body_is_read_before_a_later_delimiter_fails() {
    let (r, err, read) = collect(&one(&["A", "$(false)"]), &shell_expand, &["x\n", "A\n", "rest\n"]);
    assert_eq!(r, Err(1));
    assert_eq!(read, 2);
    assert_eq!(err, "nexus: command substitution failed\n");
}

#[test]
fn list_without_heredocs_reads_nothing() {
    let list = CommandList { pipelines: vec![Pipeline { commands: vec![cmd(&["ls"], vec![])], background: false }] };
    let (r, err, read) = collect(&list, &shell_expand, &["untouched\n"]);
    assert_eq!(r, Ok(vec![]));
    assert_eq!((err.as_str(), read), ("", 0));
}

#[test]
fn events_that_do_not_answer_change_nothing() {
    let (mut run, a) = collect_heredoc_bodies(&one(&["EOF"]));
    assert!(matches!(&a, CollectAction::Expand { raw } if raw == "EOF"));
    let mut err = String::new();
    assert!(matches!(run.step(CollectEvent::Line(Some("x\n".to_string())), &mut err), CollectAction::Expand { .. }));
    assert!(matches!(run.step(CollectEvent::Expanded(Ok(vec![])), &mut err), CollectAction::ReadLine));
    // The empty delimiter: an empty line ends the body.
    assert!(matches!(run.step(CollectEvent::Line(Some("\n".to_string())), &mut err), CollectAction::Done(Ok(b)) if b == vec![String::new()]));
}

#[test]
fn group_receives_the_body_written_after_its_parenthesis() {
    // ( cat <<A ) <<B  with input 1, A, 2, B
    let inner = CommandList { pipelines: vec![Pipeline { commands: vec![cmd(&["cat"], vec![heredoc("A")])], background: false }] };
    let group = PipelineCommand::Subshell { list: inner, redirects: vec![heredoc("B")] };
    let list = CommandList { pipelines: vec![Pipeline { commands: vec![group], background: false }] };
    let (r, _, _) = collect(&list, &shell_expand, &["1\n", "A\n", "2\n", "B\n"]);
    let bodies = r.unwrap();
    assert_eq!(bodies, strings(&["1\n", "2\n"]));
    let mut st = HeredocState::new(bodies);
    if let PipelineCommand::Subshell { list: inner, redirects } = &list.pipelines[0].commands[0] {
        st.enter_group(inner, redirects);
    }
    // The group's own `<<B` is opened first and gets "2", then `<<A` inside gets "1".
    let mut err = String::new();
    assert_eq!(st.take_next(&mut err), Ok("2\n".to_string()));
    assert_eq!(st.take_next(&mut err), Ok("1\n".to_string()));
    assert_eq!(err, "");
}
