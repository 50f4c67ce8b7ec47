use lib::ast::{Redirect, RedirectKind};
use lib::heredoc::HeredocState;
use lib::expand::LexError;
use lib::redirect::{glob_redirect_target, open_redirect_files, resolve_redirect_path, RedirectAction, RedirectEvent, StdinTarget};

fn r(kind: RedirectKind, path: &str) -> Redirect {
    Redirect { kind, path: path.to_string() }
}

#[test]
fn no_redirects_is_done_at_once() {
    let mut hs = HeredocState::new(vec![]);
    let mut err = String::new();
    let (_, a) = open_redirect_files(&vec![], &mut hs, &mut err);
    assert!(matches!(a, RedirectAction::Done(Ok(t)) if t.stdin.is_none() && t.stdout.is_none()));
}

#[test]
fn files_are_resolved_then_opened_in_order() {
    let rs = vec![r(RedirectKind::Read, "$IN"), r(RedirectKind::Write, "out"), r(RedirectKind::Append, "log")];
    let mut hs = HeredocState::new(vec![]);
    let mut err = String::new();
    let (mut run, a) = open_redirect_files(&rs, &mut hs, &mut err);
    assert!(matches!(&a, RedirectAction::Resolve { index: 0, raw } if raw == "$IN"));
    let b = run.step(&mut hs, &mut err, RedirectEvent::Resolved(Ok("in.txt".to_string())));
    assert!(matches!(&b, RedirectAction::Open { index: 0, kind: RedirectKind::Read, path } if path == "in.txt"));
    let c = run.step(&mut hs, &mut err, RedirectEvent::Opened);
    assert!(matches!(&c, RedirectAction::Resolve { index: 1, raw } if raw == "out"));
    run.step(&mut hs, &mut err, RedirectEvent::Resolved(Ok("out".to_string())));
    run.step(&mut hs, &mut err, RedirectEvent::Opened);
    run.step(&mut hs, &mut err, RedirectEvent::Resolved(Ok("log".to_string())));
    let done = run.step(&mut hs, &mut err, RedirectEvent::Opened);
    assert!(matches!(done, RedirectAction::Done(Ok(t)) if matches!(t.stdin, Some(StdinTarget::File(0))) && t.stdout == Some(2)));
}

#[test]
fn heredoc_feeds_stdin_and_a_later_file_overrides_it() {
    let rs = vec![r(RedirectKind::Heredoc, "EOF"), r(RedirectKind::Read, "f")];
    let mut hs = HeredocState::new(vec!["body\n".to_string()]);
    let mut err = String::new();
    let (mut run, a) = open_redirect_files(&rs, &mut hs, &mut err);
    assert!(matches!(a, RedirectAction::Resolve { index: 1, .. }));
    assert_eq!(hs.index(), 1);
    run.step(&mut hs, &mut err, RedirectEvent::Resolved(Ok("f".to_string())));
    let done = run.step(&mut hs, &mut err, RedirectEvent::Opened);
    assert!(matches!(done, RedirectAction::Done(Ok(t)) if matches!(t.stdin, Some(StdinTarget::File(1)))));
    let only = vec![r(RedirectKind::Heredoc, "EOF")];
    let mut hs2 = HeredocState::new(vec!["text\n".to_string()]);
    let (_, b) = open_redirect_files(&only, &mut hs2, &mut err);
    assert!(matches!(b, RedirectAction::Done(Ok(t)) if matches!(&t.stdin, Some(StdinTarget::Heredoc(s)) if s == "text\n")));
}

#[test]
fn failures_end_the_run() {
    let rs = vec![r(RedirectKind::Write, "out")];
    let mut hs = HeredocState::new(vec![]);
    let mut err = String::new();
    let (mut run, _) = open_redirect_files(&rs, &mut hs, &mut err);
    assert!(matches!(run.step(&mut hs, &mut err, RedirectEvent::Resolved(Err(1))), RedirectAction::Done(Err(1))));
    let (mut run2, _) = open_redirect_files(&rs, &mut hs, &mut err);
    run2.step(&mut hs, &mut err, RedirectEvent::Resolved(Ok("/nope/out".to_string())));
    assert!(matches!(run2.step(&mut hs, &mut err, RedirectEvent::OpenFailed), RedirectAction::Done(Err(1))));
    let missing = vec![r(RedirectKind::Heredoc, "EOF")];
    let mut empty = HeredocState::new(vec![]);
    let (_, c) = open_redirect_files(&missing, &mut empty, &mut err);
    assert!(matches!(c, RedirectAction::Done(Err(1))));
    assert_eq!(err, "nexus: missing heredoc body\n");
}

#[test]
fn redirect_target_is_the_first_field() {
    let mut err = String::new();
    let fields = vec!["my".to_string(), "file".to_string()];
    assert_eq!(resolve_redirect_path(Ok(fields), &mut err), Ok("my".to_string()));
    assert_eq!(resolve_redirect_path(Ok(vec![]), &mut err), Ok(String::new()));
    assert_eq!(err, "");
    assert_eq!(resolve_redirect_path(Err(LexError::CommandSubstitution), &mut err), Err(1));
    assert_eq!(err, "nexus: command substitution failed\n");
}

#[test]
fn ambiguous_redirect_target_is_refused() {
    let mut err = String::new();
    assert_eq!(glob_redirect_target("*.txt".to_string(), Some("a.txt".to_string()), &mut err), Ok("a.txt".to_string()));
    assert_eq!(err, "");
    assert_eq!(glob_redirect_target("*.txt".to_string(), None, &mut err), Err(1));
    assert_eq!(err, "*.txt: Ambiguous redirect.\n");
}

#[test]
fn last_redirection_on_each_stream_wins() {
    let rs = vec![
        r(RedirectKind::Write, "a"),
        r(RedirectKind::Read, "b"),
        r(RedirectKind::Append, "c"),
        r(RedirectKind::Heredoc, "EOF"),
        r(RedirectKind::Heredoc, "END"),
    ];
    let mut hs = HeredocState::new(vec!["first\n".to_string(), "second\n".to_string()]);
    let mut err = String::new();
    let (mut run, mut action) = open_redirect_files(&rs, &mut hs, &mut err);
    loop {
        action = match action {
            RedirectAction::Resolve { raw, .. } => run.step(&mut hs, &mut err, RedirectEvent::Resolved(Ok(raw))),
            RedirectAction::Open { .. } => run.step(&mut hs, &mut err, RedirectEvent::Opened),
            RedirectAction::Done(done) => {
                let t = done.expect("every redirection applies");
                assert!(matches!(&t.stdin, Some(StdinTarget::Heredoc(s)) if s == "second\n"));
                assert_eq!(t.stdout, Some(2));
                break;
            }
        };
    }
    assert_eq!(err, "");
}
