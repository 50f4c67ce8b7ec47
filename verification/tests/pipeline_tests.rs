use lib::command::CommandResult;
use lib::pipeline::{execute_piped_stages, PipeAction, PipeEvent, StageInput};

fn argv(ws: &[&str]) -> Vec<String> {
    ws.iter().map(|w| w.to_string()).collect()
}

#[test]
fn externals_are_piped_together() {
    let (mut run, a) = execute_piped_stages(vec![argv(&["ls"]), argv(&["wc", "-l"])], vec![false, false], 0);
    assert!(matches!(&a, PipeAction::Spawn { argv: v, input: StageInput::Inherit, pipe_stdout: true } if *v == argv(&["ls"])));
    let b = run.step(PipeEvent::Spawned);
    assert!(matches!(&b, PipeAction::Spawn { argv: v, input: StageInput::Pipe, pipe_stdout: false } if *v == argv(&["wc", "-l"])));
    assert!(matches!(run.step(PipeEvent::Spawned), PipeAction::WaitChildren));
    assert!(matches!(run.step(PipeEvent::Waited(3)), PipeAction::Finished(CommandResult::Status(3))));
}

#[test]
fn builtin_output_is_buffered_for_the_next_stage() {
    let (mut run, a) = execute_piped_stages(vec![argv(&["echo", "hi"]), argv(&["cat"])], vec![true, false], 6);
    assert!(matches!(a, PipeAction::RunBuiltin { last_status: 6, drain_pipe: false, to_stdout: false, .. }));
    let b = run.step(PipeEvent::BuiltinDone(0));
    assert!(matches!(b, PipeAction::Spawn { input: StageInput::Buffer, pipe_stdout: false, .. }));
}

#[test]
fn last_builtin_status_is_the_pipeline_status() {
    let (mut run, _) = execute_piped_stages(vec![argv(&["ls"]), argv(&["echo"])], vec![false, true], 0);
    let b = run.step(PipeEvent::Spawned);
    assert!(matches!(b, PipeAction::RunBuiltin { drain_pipe: true, to_stdout: true, .. }));
    assert!(matches!(run.step(PipeEvent::BuiltinDone(5)), PipeAction::WaitChildren));
    assert!(matches!(run.step(PipeEvent::Waited(0)), PipeAction::Finished(CommandResult::Status(5))));
}

#[test]
fn spawn_failure_abandons_the_pipeline() {
    let (mut run, _) = execute_piped_stages(vec![argv(&["ls"]), argv(&["nosuch"]), argv(&["wc"])], vec![false, false, false], 0);
    run.step(PipeEvent::Spawned);
    assert!(matches!(run.step(PipeEvent::SpawnFailed(127)), PipeAction::Abandon(CommandResult::Status(127))));
    assert!(matches!(run.step(PipeEvent::Spawned), PipeAction::Abandon(CommandResult::Status(127))));
}

#[test]
fn empty_stage_abandons_with_status_zero() {
    let (mut run, a) = execute_piped_stages(vec![argv(&["ls"]), vec![]], vec![false, false], 9);
    assert!(matches!(a, PipeAction::Spawn { .. }));
    assert!(matches!(run.step(PipeEvent::Spawned), PipeAction::Abandon(CommandResult::Status(0))));
    let (_, b) = execute_piped_stages(vec![vec![], argv(&["ls"])], vec![false, false], 9);
    assert!(matches!(b, PipeAction::Abandon(CommandResult::Status(0))));
}
