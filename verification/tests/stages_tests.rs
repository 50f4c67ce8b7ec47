use lib::ast::{CommandList, Pipeline, PipelineCommand, Redirect, RedirectKind, SimpleCommand};
use lib::command::{CommandResult, StdoutMode};
use lib::redirect::{RedirectTargets, StdinTarget};
use lib::stages::{execute_staged, StageStdin, StageStdout, StagedAction, StagedEvent, WaitResult};

fn argv(ws: &[&str]) -> Vec<String> {
    ws.iter().map(|w| w.to_string()).collect()
}

fn simple(ws: &[&str]) -> PipelineCommand {
    PipelineCommand::Simple(SimpleCommand { argv: argv(ws), redirects: vec![] })
}

fn subshell() -> PipelineCommand {
    let inner = SimpleCommand { argv: argv(&["cat"]), redirects: vec![] };
    let list = CommandList { pipelines: vec![Pipeline { commands: vec![PipelineCommand::Simple(inner)], background: false }] };
    PipelineCommand::Subshell { list, redirects: vec![Redirect { kind: RedirectKind::Write, path: "out".to_string() }] }
}

fn prepared(ws: &[&str], builtin: bool) -> StagedEvent {
    StagedEvent::Prepared { argv: Ok(argv(ws)), builtin }
}

fn no_redirects() -> StagedEvent {
    StagedEvent::Opened(Ok(RedirectTargets { stdin: None, stdout: None }))
}

#[test]
fn stages_are_prepared_before_any_runs() {
    let p = Pipeline { commands: vec![simple(&["ls"]), simple(&["wc", "-l"])], background: false };
    let (mut run, a) = execute_staged(&p, 0, StdoutMode::Inherit);
    assert!(matches!(a, StagedAction::Prepare { index: 0 }));
    assert!(matches!(run.step(prepared(&["ls"], false)), StagedAction::Prepare { index: 1 }));
    assert!(matches!(run.step(prepared(&["wc", "-l"], false)), StagedAction::OpenRedirects { index: 0 }));
    let b = run.step(no_redirects());
    assert!(matches!(&b, StagedAction::Spawn { argv: v, drain: false, stdin: StageStdin::Shell, stdout: StageStdout::Next } if *v == argv(&["ls"])));
    assert!(matches!(run.step(StagedEvent::Spawned), StagedAction::OpenRedirects { index: 1 }));
    let c = run.step(no_redirects());
    assert!(matches!(&c, StagedAction::Spawn { drain: false, stdin: StageStdin::Pipe, stdout: StageStdout::Shell, .. }));
    assert!(matches!(run.step(StagedEvent::Spawned), StagedAction::Wait));
    assert!(matches!(
        run.step(StagedEvent::Waited(WaitResult::Done(3))),
        StagedAction::End { kill: false, wait: false, result: CommandResult::Status(3) }
    ));
}

#[test]
fn expansion_failure_ends_before_running() {
    let p = Pipeline { commands: vec![simple(&["ls"]), simple(&["echo", "$x"])], background: false };
    let (mut run, _) = execute_staged(&p, 0, StdoutMode::Inherit);
    run.step(prepared(&["ls"], false));
    let a = run.step(StagedEvent::Prepared { argv: Err(1), builtin: false });
    assert!(matches!(a, StagedAction::End { kill: false, wait: false, result: CommandResult::Status(1) }));
}

#[test]
fn builtin_output_is_buffered_and_spawn_failure_on_last_stage_sets_status() {
    let p = Pipeline { commands: vec![simple(&["echo", "hi"]), simple(&["nosuch"])], background: false };
    let (mut run, _) = execute_staged(&p, 4, StdoutMode::Inherit);
    run.step(prepared(&["echo", "hi"], true));
    run.step(prepared(&["nosuch"], false));
    let a = run.step(no_redirects());
    assert!(matches!(a, StagedAction::RunBuiltin { last_status: 4, drain: false, stdout: StageStdout::Next, .. }));
    run.step(StagedEvent::BuiltinDone(0));
    let b = run.step(no_redirects());
    assert!(matches!(b, StagedAction::Spawn { stdin: StageStdin::Buffer, stdout: StageStdout::Shell, .. }));
    assert!(matches!(run.step(StagedEvent::SpawnFailed(127)), StagedAction::Wait));
    assert!(matches!(
        run.step(StagedEvent::Waited(WaitResult::Done(0))),
        StagedAction::End { result: CommandResult::Status(127), .. }
    ));
}

#[test]
fn spawn_failure_before_the_last_stage_does_not_stop_the_pipeline() {
    let p = Pipeline { commands: vec![simple(&["nosuch"]), simple(&["wc"])], background: false };
    let (mut run, _) = execute_staged(&p, 0, StdoutMode::Inherit);
    run.step(prepared(&["nosuch"], false));
    run.step(prepared(&["wc"], false));
    run.step(no_redirects());
    assert!(matches!(run.step(StagedEvent::SpawnFailed(127)), StagedAction::OpenRedirects { index: 1 }));
    assert!(matches!(run.step(no_redirects()), StagedAction::Spawn { stdin: StageStdin::Shell, .. }));
    run.step(StagedEvent::Spawned);
    assert!(matches!(
        run.step(StagedEvent::Waited(WaitResult::Done(0))),
        StagedAction::End { result: CommandResult::Status(0), .. }
    ));
}

#[test]
fn redirect_failure_kills_and_reaps() {
    let p = Pipeline { commands: vec![simple(&["ls"]), simple(&["wc"])], background: false };
    let (mut run, _) = execute_staged(&p, 0, StdoutMode::Inherit);
    run.step(prepared(&["ls"], false));
    run.step(prepared(&["wc"], false));
    run.step(no_redirects());
    run.step(StagedEvent::Spawned);
    let a = run.step(StagedEvent::Opened(Err(1)));
    assert!(matches!(a, StagedAction::End { kill: true, wait: true, result: CommandResult::Status(1) }));
    assert!(matches!(run.step(StagedEvent::Spawned), StagedAction::End { kill: true, wait: true, .. }));
}

#[test]
fn empty_stage_kills_and_ends_with_zero() {
    let p = Pipeline { commands: vec![simple(&["ls"]), simple(&[])], background: false };
    let (mut run, _) = execute_staged(&p, 7, StdoutMode::Inherit);
    run.step(prepared(&["ls"], false));
    run.step(StagedEvent::Prepared { argv: Ok(vec![]), builtin: false });
    run.step(no_redirects());
    let a = run.step(StagedEvent::Spawned);
    assert!(matches!(a, StagedAction::End { kill: true, wait: false, result: CommandResult::Status(0) }));
}

#[test]
fn subshell_stage_reads_the_previous_output_and_its_result_wins() {
    let p = Pipeline { commands: vec![simple(&["ls"]), subshell()], background: false };
    let (mut run, _) = execute_staged(&p, 0, StdoutMode::Capture);
    run.step(prepared(&["ls"], false));
    run.step(no_redirects());
    let a = run.step(StagedEvent::Spawned);
    assert!(matches!(a, StagedAction::RunSubshell { index: 1, stdin: StageStdin::Pipe, stdout: StageStdout::Shell, mode: StdoutMode::Capture }));
    let b = run.step(StagedEvent::SubshellDone(CommandResult::Exit(2)));
    assert!(matches!(b, StagedAction::End { kill: false, wait: true, result: CommandResult::Exit(2) }));
}

#[test]
fn leading_subshell_is_captured_into_a_buffer() {
    let p = Pipeline { commands: vec![subshell(), simple(&["wc"])], background: false };
    let (mut run, a) = execute_staged(&p, 0, StdoutMode::Inherit);
    assert!(matches!(a, StagedAction::Prepare { index: 1 }));
    let b = run.step(prepared(&["wc"], false));
    assert!(matches!(b, StagedAction::RunSubshell { index: 0, stdin: StageStdin::Shell, stdout: StageStdout::Next, mode: StdoutMode::Capture }));
    assert!(matches!(run.step(StagedEvent::SubshellDone(CommandResult::Status(0))), StagedAction::OpenRedirects { index: 1 }));
    assert!(matches!(run.step(no_redirects()), StagedAction::Spawn { stdin: StageStdin::Buffer, .. }));
}

#[test]
fn redirected_stdin_discards_the_previous_output() {
    let p = Pipeline { commands: vec![simple(&["ls"]), simple(&["cat"])], background: false };
    let (mut run, _) = execute_staged(&p, 0, StdoutMode::Capture);
    run.step(prepared(&["ls"], false));
    run.step(prepared(&["cat"], false));
    run.step(StagedEvent::Opened(Ok(RedirectTargets { stdin: None, stdout: Some(0) })));
    let a = run.step(StagedEvent::Spawned);
    assert!(matches!(a, StagedAction::OpenRedirects { index: 1 }));
    let b = run.step(StagedEvent::Opened(Ok(RedirectTargets { stdin: Some(StdinTarget::Heredoc("x\n".to_string())), stdout: None })));
    assert!(matches!(&b, StagedAction::Spawn { drain: false, stdin: StageStdin::Heredoc(h), stdout: StageStdout::Capture, .. } if h == "x\n"));
}

#[test]
fn stopped_pipeline_is_suspended_under_its_text() {
    let p = Pipeline { commands: vec![simple(&["sleep", "9"]), simple(&["cat"])], background: false };
    let (mut run, _) = execute_staged(&p, 0, StdoutMode::Inherit);
    run.step(prepared(&["sleep", "9"], false));
    run.step(prepared(&["cat"], false));
    run.step(no_redirects());
    run.step(StagedEvent::Spawned);
    run.step(no_redirects());
    run.step(StagedEvent::Spawned);
    let a = run.step(StagedEvent::Waited(WaitResult::Stopped(148)));
    assert!(matches!(&a, StagedAction::Suspend { command, result: CommandResult::Status(148) } if command == "sleep 9 | cat"));
}

#[test]
fn last_builtin_status_wins_over_the_wait() {
    let p = Pipeline { commands: vec![simple(&["ls"]), simple(&["echo"])], background: false };
    let (mut run, _) = execute_staged(&p, 0, StdoutMode::Inherit);
    run.step(prepared(&["ls"], false));
    run.step(prepared(&["echo"], true));
    run.step(no_redirects());
    run.step(StagedEvent::Spawned);
    let a = run.step(no_redirects());
    assert!(matches!(a, StagedAction::RunBuiltin { drain: true, stdout: StageStdout::Shell, .. }));
    assert!(matches!(run.step(StagedEvent::BuiltinDone(5)), StagedAction::Wait));
    assert!(matches!(run.step(StagedEvent::Waited(WaitResult::Done(0))), StagedAction::End { result: CommandResult::Status(5), .. }));
}
