use lib::cond::{binary_eval, body_of, conditional_body, eval, expand_token, expanded_tokens, file_test_queries, run, run_lexed, unary_eval, FileFacts, Token};
use lib::ast::SimpleCommand;
use lib::env::ShellEnvironment;

fn s(x: &str) -> String {
    x.to_string()
}

fn words(ws: &[&str]) -> Vec<String> {
    ws.iter().map(|w| w.to_string()).collect()
}

fn no_facts() -> FileFacts {
    Vec::new()
}

#[test]
fn body_extraction() {
    assert_eq!(body_of("[[ -n x ]]"), Some(s("-n x")));
    assert_eq!(body_of("  [[a]]\t"), Some(s("a")));
    assert_eq!(body_of("[[]]"), Some(s("")));
    assert_eq!(body_of("[[ x ]"), None);
    assert_eq!(body_of("[]"), None);
    let lone = SimpleCommand { argv: words(&["[[ 1 -eq 1 ]]"]), redirects: vec![] };
    assert_eq!(conditional_body(&lone), Some(s("1 -eq 1")));
    let two = SimpleCommand { argv: words(&["[[", "x]]"]), redirects: vec![] };
    assert_eq!(conditional_body(&two), None);
}

#[test]
fn string_comparisons() {
    assert_eq!(binary_eval(&s("a"), &s("="), &s("a")), Ok(true));
    assert_eq!(binary_eval(&s("a"), &s("=="), &s("b")), Ok(false));
    assert_eq!(binary_eval(&s("a"), &s("!="), &s("b")), Ok(true));
    assert_eq!(binary_eval(&s("abc"), &s("<"), &s("abd")), Ok(true));
    assert_eq!(binary_eval(&s("ab"), &s("<"), &s("abc")), Ok(true));
    assert_eq!(binary_eval(&s("b"), &s(">"), &s("abc")), Ok(true));
    assert_eq!(binary_eval(&s("é"), &s(">"), &s("z")), Ok(true));
    assert_eq!(binary_eval(&s("a"), &s("=~"), &s("a")), Err("unknown binary operator"));
}

#[test]
fn integer_comparisons() {
    assert_eq!(binary_eval(&s("10"), &s("-eq"), &s("+10")), Ok(true));
    assert_eq!(binary_eval(&s("-3"), &s("-lt"), &s("2")), Ok(true));
    assert_eq!(binary_eval(&s("2"), &s("-le"), &s("2")), Ok(true));
    assert_eq!(binary_eval(&s("2"), &s("-gt"), &s("3")), Ok(false));
    assert_eq!(binary_eval(&s("3"), &s("-ge"), &s("3")), Ok(true));
    assert_eq!(binary_eval(&s("1"), &s("-ne"), &s("1")), Ok(false));
    assert_eq!(binary_eval(&s("9223372036854775807"), &s("-eq"), &s("9223372036854775807")), Ok(true));
    assert_eq!(binary_eval(&s("-9223372036854775808"), &s("-lt"), &s("0")), Ok(true));
    assert_eq!(binary_eval(&s("9223372036854775808"), &s("-eq"), &s("0")), Err("integer expression expected"));
    assert_eq!(binary_eval(&s("x"), &s("-eq"), &s("0")), Err("integer expression expected"));
    assert_eq!(binary_eval(&s("-"), &s("-eq"), &s("0")), Err("integer expression expected"));
    assert_eq!(binary_eval(&s(""), &s("-eq"), &s("0")), Err("integer expression expected"));
    assert_eq!(binary_eval(&s(" 1"), &s("-eq"), &s("1")), Err("integer expression expected"));
}

#[test]
fn unary_tests_with_facts() {
    let facts: FileFacts = vec![(s("-f"), s("/etc/passwd"), true), (s("-d"), s("/etc/passwd"), false)];
    assert_eq!(unary_eval(&s("-z"), &s(""), &facts), Ok(true));
    assert_eq!(unary_eval(&s("-n"), &s(""), &facts), Ok(false));
    assert_eq!(unary_eval(&s("-f"), &s("/etc/passwd"), &facts), Ok(true));
    assert_eq!(unary_eval(&s("-d"), &s("/etc/passwd"), &facts), Ok(false));
    assert_eq!(unary_eval(&s("-e"), &s("/nowhere"), &facts), Ok(false));
    assert_eq!(unary_eval(&s("-q"), &s("x"), &facts), Err("unknown unary operator"));
}

#[test]
fn connectives_and_short_circuits() {
    let f = no_facts();
    assert_eq!(eval(&words(&["a", "=", "a", "&&", "b", "=", "c"]), &f), Ok(false));
    assert_eq!(eval(&words(&["a", "=", "b", "||", "c"]), &f), Ok(true));
    assert_eq!(eval(&words(&["x", "||", "a", "b", "c", "d"]), &f), Ok(true));
    assert_eq!(eval(&words(&["", "&&", "a", "b", "c", "d"]), &f), Ok(false));
    assert_eq!(eval(&words(&["a", "b", "c", "d"]), &f), Err("parse error"));
    assert_eq!(eval(&words(&[]), &f), Ok(false));
    assert_eq!(eval(&words(&["a", "b"]), &f), Err("parse error"));
    assert_eq!(eval(&words(&["-z", ""]), &f), Ok(true));
    assert_eq!(eval(&words(&["-n", ""]), &f), Ok(false));
}

#[test]
fn token_expansion_and_run_status() {
    let mut env = ShellEnvironment::new();
    env.set("V", "1");
    let op = Token { operator: true, text: s("$V") };
    let word = Token { operator: false, text: s("$V") };
    assert_eq!(expand_token(&op, &env, 0), Ok(s("$V")));
    assert_eq!(expand_token(&word, &env, 0), Ok(s("1")));
    let tokens = vec![Token { operator: false, text: s("$V") }, Token { operator: false, text: s("-eq") }, Token { operator: false, text: s("1") }];
    assert_eq!(expanded_tokens(&tokens, &env, 0), Ok(words(&["1", "-eq", "1"])));
    let mut err = String::new();
    assert_eq!(run(&tokens, &env, 0, &no_facts(), &mut err), 0);
    let falsy = vec![Token { operator: false, text: s("$?") }, Token { operator: false, text: s("-eq") }, Token { operator: false, text: s("0") }];
    assert_eq!(run(&falsy, &env, 1, &no_facts(), &mut err), 1);
    assert_eq!(err, "");
    let broken = vec![Token { operator: false, text: s("'x") }];
    assert_eq!(expanded_tokens(&broken, &env, 0), Err("expansion failed"));
    assert_eq!(run(&broken, &env, 0, &no_facts(), &mut err), 2);
    assert_eq!(err, "[[: expansion failed\n");
    let bad = vec![Token { operator: false, text: s("a") }, Token { operator: false, text: s("b") }];
    let mut err2 = String::new();
    assert_eq!(run(&bad, &env, 0, &no_facts(), &mut err2), 2);
    assert_eq!(err2, "[[: parse error\n");
}

#[test]
fn file_queries_list_every_file_test() {
    let q = file_test_queries(&words(&["-f", "a", "&&", "-d", "b", "||", "-z", "c", "-x"]));
    assert_eq!(q, vec![(s("-f"), s("a")), (s("-d"), s("b"))]);
    assert_eq!(file_test_queries(&words(&["-e"])), vec![]);
}

#[test]
fn unlexable_conditional_is_a_parse_error() {
    let env = ShellEnvironment::new();
    let facts: FileFacts = vec![];
    let mut err = String::new();
    assert_eq!(run_lexed(None, &env, 0, &facts, &mut err), 2);
    assert_eq!(err, "[[: parse error\n");
    let mut err2 = String::new();
    let tokens = vec![Token { operator: false, text: s("-n") }, Token { operator: false, text: s("x") }];
    assert_eq!(run_lexed(Some(tokens), &env, 0, &facts, &mut err2), 0);
    assert_eq!(err2, "");
}
