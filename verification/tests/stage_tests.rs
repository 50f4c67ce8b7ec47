use lib::ast::{CommandList, Pipeline, PipelineCommand, SimpleCommand};
use lib::background::{apply_bg_stdio, background_simple, is_single_simple, BackgroundPlan};
use lib::command::{BuiltinResult, CommandResult, StdoutMode};
use lib::redirect::{RedirectTargets, StdinTarget};
use lib::stage::{builtin_result, redirected_builtin_result, configure_stdio, dispatch_with_files, run_configured, RunRoute, Runner};
use lib::subshell::{apply_group_stdio, subshell_result};

#[test]
fn redirected_command_runner_order() {
    assert_eq!(dispatch_with_files(true, true), Runner::Function);
    assert_eq!(dispatch_with_files(false, true), Runner::Builtin);
    assert_eq!(dispatch_with_files(false, false), Runner::External);
}

#[test]
fn stdio_for_external_programs() {
    let p = configure_stdio(RedirectTargets { stdin: Some(StdinTarget::Heredoc("x\n".to_string())), stdout: None }, StdoutMode::Capture);
    assert_eq!(p.stdin_bytes, Some("x\n".to_string()));
    assert_eq!(p.stdin_file, None);
    assert!(p.copy_out);
    let q = configure_stdio(RedirectTargets { stdin: Some(StdinTarget::File(0)), stdout: Some(1) }, StdoutMode::Capture);
    assert_eq!(q.stdin_file, Some(0));
    assert_eq!(q.stdout_file, Some(1));
    assert!(!q.copy_out);
    let r = configure_stdio(RedirectTargets { stdin: None, stdout: None }, StdoutMode::Inherit);
    assert!(!r.copy_out && r.stdin_bytes.is_none());
}

#[test]
fn run_routes() {
    assert_eq!(run_configured(false, false, true), RunRoute::JobControl);
    assert_eq!(run_configured(false, false, false), RunRoute::Status);
    assert_eq!(run_configured(true, false, true), RunRoute::WithIo);
    assert_eq!(run_configured(false, true, true), RunRoute::WithIo);
    assert_eq!(builtin_result(None), CommandResult::Status(0));
    assert_eq!(builtin_result(Some(CommandResult::Exit(3))), CommandResult::Exit(3));
}

#[test]
fn exit_in_a_subshell_is_only_a_status() {
    assert_eq!(subshell_result(CommandResult::Exit(4)), CommandResult::Status(4));
    assert_eq!(subshell_result(CommandResult::Status(1)), CommandResult::Status(1));
}

#[test]
fn group_redirections() {
    let g = apply_group_stdio(RedirectTargets { stdin: None, stdout: Some(0) }, StdoutMode::Inherit);
    assert_eq!(g.mode, StdoutMode::Capture);
    assert_eq!(g.stdout_file, Some(0));
    let h = apply_group_stdio(RedirectTargets { stdin: Some(StdinTarget::File(2)), stdout: None }, StdoutMode::Inherit);
    assert_eq!(h.mode, StdoutMode::Inherit);
    assert!(matches!(h.stdin, Some(StdinTarget::File(2))));
}

#[test]
fn background_plans() {
    assert!(matches!(background_simple(Err(1), false), BackgroundPlan::Done(CommandResult::Status(1))));
    assert!(matches!(background_simple(Ok(vec![]), true), BackgroundPlan::Done(CommandResult::Status(0))));
    assert!(matches!(background_simple(Ok(vec!["cd".to_string()]), true), BackgroundPlan::IsolatedShell));
    assert!(matches!(background_simple(Ok(vec!["sleep".to_string(), "1".to_string()]), false), BackgroundPlan::Spawn(v) if v.len() == 2));
    let s = apply_bg_stdio(RedirectTargets { stdin: Some(StdinTarget::Heredoc("ignored".to_string())), stdout: Some(3) });
    assert_eq!(s.stdin_file, None);
    assert_eq!(s.stdout_file, Some(3));
    let t = apply_bg_stdio(RedirectTargets { stdin: Some(StdinTarget::File(1)), stdout: None });
    assert_eq!(t.stdin_file, Some(1));
}

#[test]
fn redirected_builtin_results() {
    let mut err = String::new();
    assert_eq!(redirected_builtin_result(None, &mut err), CommandResult::Status(0));
    assert_eq!(redirected_builtin_result(Some(BuiltinResult::Status(3)), &mut err), CommandResult::Status(3));
    assert_eq!(redirected_builtin_result(Some(BuiltinResult::Exit(4)), &mut err), CommandResult::Exit(4));
    assert_eq!(err, "");
    let repeat = BuiltinResult::Repeat { count: 2, argv: vec!["ls".to_string()] };
    assert_eq!(redirected_builtin_result(Some(repeat), &mut err), CommandResult::Status(1));
    assert_eq!(err, "repeat: not available in this context.\n");
}

#[test]
fn background_launch_kinds() {
    let simple = || PipelineCommand::Simple(SimpleCommand { argv: vec!["ls".to_string()], redirects: vec![] });
    assert!(is_single_simple(&Pipeline { commands: vec![simple()], background: true }));
    assert!(!is_single_simple(&Pipeline { commands: vec![simple(), simple()], background: true }));
    let group = PipelineCommand::Subshell { list: CommandList { pipelines: vec![] }, redirects: vec![] };
    assert!(!is_single_simple(&Pipeline { commands: vec![group], background: true }));
    assert!(!is_single_simple(&Pipeline { commands: vec![], background: true }));
}

#[test]
fn redirected_source_is_unavailable() {
    let mut err = String::new();
    assert_eq!(redirected_builtin_result(Some(BuiltinResult::Source("rc".to_string())), &mut err), CommandResult::Status(1));
    assert_eq!(err, "source: not available in this context.\n");
}
