use lib::command::{execute_command, execute_command_mode, BuiltinResult, CommandResult, DispatchAction, DispatchEvent, StdoutMode};
use lib::list::{execute_list_with, pipeline_shape, run_simple, ListAction, PipelineShape, SimplePlan};
use lib::ast::{CommandList, Pipeline, PipelineCommand, SimpleCommand};

fn argv(ws: &[&str]) -> Vec<String> {
    ws.iter().map(|w| w.to_string()).collect()
}

fn is_function(a: &DispatchAction, ws: &[&str], status: u8) -> bool {
    matches!(a, DispatchAction::RunFunction { argv: v, last_status } if *v == argv(ws) && *last_status == status)
}

#[test]
fn function_is_tried_first_and_wins() {
    let (mut d, first) = execute_command(argv(&["greet", "x"]), 3);
    assert!(is_function(&first, &["greet", "x"], 3));
    let done = d.step(DispatchEvent::Function(Some(CommandResult::Status(4))));
    assert!(matches!(done, DispatchAction::Finished(CommandResult::Status(4))));
}

#[test]
fn builtin_then_external() {
    let (mut d, _) = execute_command_mode(StdoutMode::Capture, argv(&["ls", "-l"]), 0);
    let a = d.step(DispatchEvent::Function(None));
    assert!(matches!(&a, DispatchAction::RunBuiltin { argv: v, last_status: 0 } if *v == argv(&["ls", "-l"])));
    let b = d.step(DispatchEvent::Builtin(None));
    assert!(matches!(&b, DispatchAction::RunExternal { argv: v, mode: StdoutMode::Capture } if *v == argv(&["ls", "-l"])));
    let c = d.step(DispatchEvent::External(127));
    assert!(matches!(c, DispatchAction::Finished(CommandResult::Status(127))));
}

#[test]
fn builtin_status_and_exit() {
    let (mut d, _) = execute_command(argv(&["cd"]), 0);
    d.step(DispatchEvent::Function(None));
    assert!(matches!(d.step(DispatchEvent::Builtin(Some(BuiltinResult::Status(1)))), DispatchAction::Finished(CommandResult::Status(1))));
    let (mut e, _) = execute_command(argv(&["exit", "2"]), 0);
    e.step(DispatchEvent::Function(None));
    assert!(matches!(e.step(DispatchEvent::Builtin(Some(BuiltinResult::Exit(2)))), DispatchAction::Finished(CommandResult::Exit(2))));
}

#[test]
fn repeat_zero_keeps_incoming_status() {
    let (mut d, _) = execute_command(argv(&["repeat", "0", "ls"]), 9);
    d.step(DispatchEvent::Function(None));
    let a = d.step(DispatchEvent::Builtin(Some(BuiltinResult::Repeat { count: 0, argv: argv(&["ls"]) })));
    assert!(matches!(a, DispatchAction::Finished(CommandResult::Status(9))));
}

#[test]
fn repeat_runs_command_count_times_threading_status() {
    let (mut d, _) = execute_command(argv(&["repeat", "2", "false"]), 5);
    d.step(DispatchEvent::Function(None));
    let a1 = d.step(DispatchEvent::Builtin(Some(BuiltinResult::Repeat { count: 2, argv: argv(&["false"]) })));
    assert!(is_function(&a1, &["false"], 5));
    let a2 = d.step(DispatchEvent::Function(None));
    assert!(matches!(a2, DispatchAction::RunBuiltin { .. }));
    let a3 = d.step(DispatchEvent::Builtin(None));
    assert!(matches!(a3, DispatchAction::RunExternal { .. }));
    let a4 = d.step(DispatchEvent::External(1));
    assert!(is_function(&a4, &["false"], 1));
    let a5 = d.step(DispatchEvent::Function(Some(CommandResult::Status(6))));
    assert!(matches!(a5, DispatchAction::Finished(CommandResult::Status(6))));
}

#[test]
fn exit_inside_nested_repeats_ends_everything() {
    let (mut d, _) = execute_command(argv(&["repeat", "3", "repeat", "3", "exit", "4"]), 0);
    d.step(DispatchEvent::Function(None));
    d.step(DispatchEvent::Builtin(Some(BuiltinResult::Repeat { count: 3, argv: argv(&["repeat", "3", "exit", "4"]) })));
    d.step(DispatchEvent::Function(None));
    let inner = d.step(DispatchEvent::Builtin(Some(BuiltinResult::Repeat { count: 3, argv: argv(&["exit", "4"]) })));
    assert!(is_function(&inner, &["exit", "4"], 0));
    d.step(DispatchEvent::Function(None));
    let done = d.step(DispatchEvent::Builtin(Some(BuiltinResult::Exit(4))));
    assert!(matches!(done, DispatchAction::Finished(CommandResult::Exit(4))));
}

#[test]
fn unanswered_event_reissues_pending_action() {
    let (mut d, _) = execute_command(argv(&["x"]), 2);
    let again = d.step(DispatchEvent::External(0));
    assert!(is_function(&again, &["x"], 2));
    d.step(DispatchEvent::Function(Some(CommandResult::Status(0))));
    let after = d.step(DispatchEvent::External(5));
    assert!(matches!(after, DispatchAction::Finished(CommandResult::Status(0))));
}

fn pipe(n: usize, background: bool) -> Pipeline {
    let mut commands = Vec::new();
    for _ in 0..n {
        commands.push(PipelineCommand::Simple(SimpleCommand { argv: argv(&["true"]), redirects: vec![] }));
    }
    Pipeline { commands, background }
}

#[test]
fn pipeline_shapes() {
    assert_eq!(pipeline_shape(&pipe(1, true)), PipelineShape::Background);
    assert_eq!(pipeline_shape(&pipe(0, false)), PipelineShape::Empty);
    assert_eq!(pipeline_shape(&pipe(1, false)), PipelineShape::Simple);
    assert_eq!(pipeline_shape(&pipe(3, false)), PipelineShape::Piped);
    let sub = Pipeline {
        commands: vec![PipelineCommand::Subshell { list: CommandList { pipelines: vec![] }, redirects: vec![] }],
        background: false,
    };
    assert_eq!(pipeline_shape(&sub), PipelineShape::Subshell);
}

#[test]
fn list_runs_in_order_and_stops_on_exit() {
    let list = CommandList { pipelines: vec![pipe(1, false), pipe(1, false), pipe(1, false)] };
    let (mut run, first) = execute_list_with(&list, 7);
    assert_eq!(first, ListAction::RunPipeline { index: 0, last_status: 7 });
    assert_eq!(run.step(CommandResult::Status(1)), ListAction::RunPipeline { index: 1, last_status: 1 });
    assert_eq!(run.step(CommandResult::Exit(3)), ListAction::Finished(CommandResult::Exit(3)));
    let (mut run2, _) = execute_list_with(&list, 0);
    run2.step(CommandResult::Status(1));
    run2.step(CommandResult::Status(2));
    assert_eq!(run2.step(CommandResult::Status(3)), ListAction::Finished(CommandResult::Status(3)));
}

#[test]
fn empty_list_keeps_status() {
    let (_, a) = execute_list_with(&CommandList { pipelines: vec![] }, 12);
    assert_eq!(a, ListAction::Finished(CommandResult::Status(12)));
}

#[test]
fn simple_command_plans() {
    assert!(matches!(run_simple(Err(1), 0), SimplePlan::Done(CommandResult::Status(1))));
    assert!(matches!(run_simple(Ok(vec![]), 4), SimplePlan::Done(CommandResult::Status(4))));
    assert!(matches!(run_simple(Ok(argv(&["ls"])), 4), SimplePlan::Dispatch(v) if v == argv(&["ls"])));
}

#[test]
fn source_runs_the_file_and_its_result_ends_the_command() {
    let (mut d, _) = execute_command(argv(&["source", "rc"]), 3);
    d.step(DispatchEvent::Function(None));
    let a = d.step(DispatchEvent::Builtin(Some(BuiltinResult::Source("rc".to_string()))));
    assert!(matches!(&a, DispatchAction::RunSource { path } if path == "rc"));
    assert!(matches!(d.step(DispatchEvent::External(9)), DispatchAction::RunSource { .. }));
    assert!(matches!(d.step(DispatchEvent::Sourced(CommandResult::Status(7))), DispatchAction::Finished(CommandResult::Status(7))));
}

#[test]
fn empty_command_ends_with_status_zero_without_a_program() {
    let (mut d, _) = execute_command(vec![], 5);
    d.step(DispatchEvent::Function(None));
    assert!(matches!(d.step(DispatchEvent::Builtin(None)), DispatchAction::Finished(CommandResult::Status(0))));
}
