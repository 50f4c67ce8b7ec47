use lib::arith::{arith_body, body_of as arith_body_of, run as arith_run};
use lib::ast::SimpleCommand;
use lib::capture::{capture_body, capture_outcome, capture_plan, trim_trailing_newlines, CapturePlan, LineParse};
use lib::ast::CommandList;
use lib::process::spawns;
use lib::expand::LexError;
use lib::command::BuiltinResult;
use lib::process::{exit_status_code, needs_path_search, resolve_program, run_builtin_status, wait_children};
use lib::notices::{job_command, started_notice, suspended_notice};
use lib::text::{decimal_string, push_decimal, push_decimal_u64};

#[test]
fn exit_codes() {
    assert_eq!(exit_status_code(Some(0), None), 0);
    assert_eq!(exit_status_code(Some(3), Some(9)), 3);
    assert_eq!(exit_status_code(Some(256 + 7), None), 7);
    assert_eq!(exit_status_code(Some(-1), None), 255);
    assert_eq!(exit_status_code(None, Some(9)), 137);
    assert_eq!(exit_status_code(None, Some(200)), 255);
    assert_eq!(exit_status_code(None, None), 1);
}

#[test]
fn builtin_statuses_in_pipelines() {
    let mut err = String::new();
    assert_eq!(run_builtin_status(Some(BuiltinResult::Status(4)), &mut err), 4);
    assert_eq!(run_builtin_status(Some(BuiltinResult::Exit(2)), &mut err), 2);
    assert_eq!(run_builtin_status(None, &mut err), 0);
    assert_eq!(err, "");
    assert_eq!(run_builtin_status(Some(BuiltinResult::Repeat { count: 1, argv: vec![] }), &mut err), 1);
    assert_eq!(err, "repeat: not available in this context.\n");
}

#[test]
fn program_resolution() {
    assert!(needs_path_search(&"ls".to_string()));
    assert!(!needs_path_search(&"./run".to_string()));
    assert_eq!(resolve_program(&"./run".to_string(), Some("/bin/run".to_string())), "./run");
    assert_eq!(resolve_program(&"ls".to_string(), Some("/bin/ls".to_string())), "/bin/ls");
    assert_eq!(resolve_program(&"nope".to_string(), None), "nope");
}

#[test]
fn pipeline_status_is_last_child() {
    assert_eq!(wait_children(&vec![]), 0);
    assert_eq!(wait_children(&vec![1, 0, 5]), 5);
}

#[test]
fn trailing_newlines_are_trimmed() {
    assert_eq!(trim_trailing_newlines("out\n\r\n".to_string()), "out");
    assert_eq!(trim_trailing_newlines("a\nb".to_string()), "a\nb");
    assert_eq!(trim_trailing_newlines("\n\n".to_string()), "");
    let once = trim_trailing_newlines("x\r\n".to_string());
    assert_eq!(trim_trailing_newlines(once.clone()), once);
}

#[test]
fn arithmetic_words_and_statuses() {
    assert_eq!(arith_body_of("((1 + 2))"), Some("1 + 2".to_string()));
    assert_eq!(arith_body_of("(())"), Some(String::new()));
    assert_eq!(arith_body_of("((1)"), None);
    assert_eq!(arith_body_of("(x))"), None);
    let lone = SimpleCommand { argv: vec!["((i++))".to_string()], redirects: vec![] };
    assert_eq!(arith_body(&lone), Some("i++".to_string()));
    let two = SimpleCommand { argv: vec!["((".to_string(), "1))".to_string()], redirects: vec![] };
    assert_eq!(arith_body(&two), None);
    let mut err = String::new();
    assert_eq!(arith_run(Ok(0), &mut err), 1);
    assert_eq!(arith_run(Ok(-5), &mut err), 0);
    assert_eq!(err, "");
    assert_eq!(arith_run(Err("division by zero".to_string()), &mut err), 1);
    assert_eq!(err, "division by zero\n");
}

#[test]
fn decimal_rendering() {
    assert_eq!(decimal_string(0), "0");
    assert_eq!(decimal_string(9), "9");
    assert_eq!(decimal_string(10), "10");
    assert_eq!(decimal_string(255), "255");
    let mut s = String::from("code=");
    push_decimal(&mut s, 100);
    assert_eq!(s, "code=100");
}

#[test]
fn substitution_body_is_trimmed_and_blank_runs_nothing() {
    assert_eq!(capture_body("  echo hi \n"), Some("echo hi".to_string()));
    assert_eq!(capture_body(" \t\n "), None);
    assert_eq!(capture_body(""), None);
}

#[test]
fn substitution_value_drops_trailing_newlines() {
    assert_eq!(capture_outcome(Some("a\nb\n\n".to_string())), Ok("a\nb".to_string()));
    assert_eq!(capture_outcome(Some(String::new())), Ok(String::new()));
    assert_eq!(capture_outcome(None), Err(LexError::CommandSubstitution));
}

#[test]
fn job_lines() {
    let argv = vec!["sleep".to_string(), "30".to_string()];
    assert_eq!(job_command(&argv), "sleep 30");
    assert_eq!(job_command(&vec![]), "");
    assert_eq!(started_notice(2, 4711), "[2] 4711\n");
    assert_eq!(suspended_notice(1, "sleep 30"), "[1]+  Suspended                 sleep 30\n");
}

#[test]
fn wide_decimals() {
    let mut s = String::new();
    push_decimal_u64(&mut s, 0);
    s.push(' ');
    push_decimal_u64(&mut s, 18446744073709551615);
    assert_eq!(s, "0 18446744073709551615");
}

#[test]
fn source_is_unavailable_in_a_pipeline() {
    let mut err = String::new();
    assert_eq!(run_builtin_status(Some(BuiltinResult::Source("rc".to_string())), &mut err), 1);
    assert_eq!(err, "source: not available in this context.\n");
}

#[test]
fn substitution_parse_outcomes() {
    assert!(matches!(capture_plan(LineParse::LexFailed(LexError::UnclosedQuote)), CapturePlan::Done(Err(LexError::UnclosedQuote))));
    assert!(matches!(capture_plan(LineParse::ParseFailed), CapturePlan::Done(Err(LexError::CommandSubstitution))));
    assert!(matches!(capture_plan(LineParse::Empty), CapturePlan::Done(Ok(s)) if s.is_empty()));
    assert!(matches!(capture_plan(LineParse::List(CommandList { pipelines: vec![] })), CapturePlan::Run(l) if l.pipelines.is_empty()));
}

#[test]
fn empty_command_line_spawns_nothing() {
    assert!(!spawns(&vec![]));
    assert!(spawns(&vec!["ls".to_string()]));
}
