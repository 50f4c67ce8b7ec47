use lib::env::ShellEnvironment;
use lib::expand::{expand_word_for_exec, expand_word_for_exec_into, LexError};

fn env_with(pairs: &[(&str, &str)]) -> ShellEnvironment {
    let mut env = ShellEnvironment::new();
    for (k, v) in pairs {
        env.set(k, v);
    }
    env
}

fn expand(raw: &str, env: &ShellEnvironment, status: u8) -> Result<String, LexError> {
    expand_word_for_exec(raw, env, status)
}

#[test]
fn plain_word_is_unchanged() {
    let env = ShellEnvironment::new();
    assert_eq!(expand("hello-world.txt", &env, 0), Ok("hello-world.txt".to_string()));
    assert_eq!(expand("", &env, 0), Ok(String::new()));
}

#[test]
fn single_quotes_are_literal() {
    let env = env_with(&[("HOME", "/home/u")]);
    assert_eq!(expand("'$HOME \\n x'", &env, 0), Ok("$HOME \\n x".to_string()));
    assert_eq!(expand("a'b c'd", &env, 0), Ok("ab cd".to_string()));
}

#[test]
fn double_quotes_expand_parameters() {
    let env = env_with(&[("NAME", "world")]);
    assert_eq!(expand("\"hello $NAME\"", &env, 0), Ok("hello world".to_string()));
    assert_eq!(expand("\"${NAME}s\"", &env, 0), Ok("worlds".to_string()));
}

#[test]
fn backslash_escapes_in_double_quotes() {
    let env = env_with(&[("X", "1")]);
    assert_eq!(expand("\"\\\"\\\\\\$X\\`\"", &env, 0), Ok("\"\\$X`".to_string()));
    assert_eq!(expand("\"a\\qb\"", &env, 0), Ok("a\\qb".to_string()));
    assert_eq!(expand("\"a\\\nb\"", &env, 0), Ok("a\nb".to_string()));
}

#[test]
fn backslash_outside_quotes() {
    let env = ShellEnvironment::new();
    assert_eq!(expand("a\\ b", &env, 0), Ok("a b".to_string()));
    assert_eq!(expand("\\$HOME", &env, 0), Ok("$HOME".to_string()));
    assert_eq!(expand("trailing\\", &env, 0), Ok("trailing".to_string()));
}

#[test]
fn last_status_parameters() {
    let env = ShellEnvironment::new();
    assert_eq!(expand("$?", &env, 42), Ok("42".to_string()));
    assert_eq!(expand("$status", &env, 7), Ok("7".to_string()));
    assert_eq!(expand("${status}", &env, 255), Ok("255".to_string()));
    assert_eq!(expand("x$?y", &env, 0), Ok("x0y".to_string()));
    assert_eq!(expand("\"$?\"", &env, 130), Ok("130".to_string()));
}

#[test]
fn status_variable_takes_precedence_over_environment() {
    let env = env_with(&[("status", "shadow")]);
    assert_eq!(expand("$status", &env, 3), Ok("3".to_string()));
}

#[test]
fn variables_and_unset_variables() {
    let env = env_with(&[("A", "one"), ("B_2", "two")]);
    assert_eq!(expand("$A-$B_2", &env, 0), Ok("one-two".to_string()));
    assert_eq!(expand("[$UNSET]", &env, 0), Ok("[]".to_string()));
    assert_eq!(expand("${A}${B_2}", &env, 0), Ok("onetwo".to_string()));
}

#[test]
fn dollar_without_a_name_is_literal() {
    let env = ShellEnvironment::new();
    assert_eq!(expand("$", &env, 0), Ok("$".to_string()));
    assert_eq!(expand("$1", &env, 0), Ok("$1".to_string()));
    assert_eq!(expand("a$ b", &env, 0), Ok("a$ b".to_string()));
}

#[test]
fn braces_edge_cases() {
    let env = env_with(&[("A B", "spaced")]);
    assert_eq!(expand("x${}y", &env, 0), Ok("xy".to_string()));
    assert_eq!(expand("${ABC", &env, 0), Ok("${ABC".to_string()));
    assert_eq!(expand("${A B}", &env, 0), Ok("spaced".to_string()));
}

#[test]
fn unclosed_quotes_are_errors() {
    let env = ShellEnvironment::new();
    assert_eq!(expand("'abc", &env, 0), Err(LexError::UnclosedQuote));
    assert_eq!(expand("\"abc", &env, 0), Err(LexError::UnclosedQuote));
    assert_eq!(expand("\"${abc\"", &env, 0), Err(LexError::UnclosedQuote));
}

#[test]
fn expand_into_clears_and_keeps_partial_text_on_error() {
    let env = env_with(&[("V", "val")]);
    let mut out = String::from("stale");
    assert_eq!(expand_word_for_exec_into("$V", &env, 0, &mut out), Ok(()));
    assert_eq!(out, "val");
    assert_eq!(expand_word_for_exec_into("ok'partial", &env, 0, &mut out), Err(LexError::UnclosedQuote));
    assert_eq!(out, "okpartial");
}

#[test]
fn setting_a_variable_then_expanding_gives_its_value() {
    let mut env = ShellEnvironment::new();
    env.set("PATHX", "/bin");
    env.set("OTHER", "o");
    env.set("PATHX", "/usr/bin");
    assert_eq!(expand("$PATHX", &env, 0), Ok("/usr/bin".to_string()));
    assert_eq!(expand("$OTHER", &env, 0), Ok("o".to_string()));
    assert_eq!(env.lookup(&"PATHX".to_string()), Some(&"/usr/bin".to_string()));
    assert_eq!(env.lookup(&"NOPE".to_string()), None);
    assert_eq!(env.vars().len(), 2);
}

#[test]
fn duplicated_environment_is_independent() {
    let mut env = ShellEnvironment::new();
    env.set("A", "1");
    env.set("B", "2");
    let mut copy = env.duplicate();
    assert_eq!(copy.lookup(&"A".to_string()), Some(&"1".to_string()));
    assert_eq!(copy.vars().len(), 2);
    copy.set("A", "9");
    assert_eq!(env.lookup(&"A".to_string()), Some(&"1".to_string()));
    assert_eq!(copy.lookup(&"A".to_string()), Some(&"9".to_string()));
}

#[test]
fn backslash_makes_the_next_character_literal() {
    let mut env = ShellEnvironment::new();
    env.set("X", "value");
    assert_eq!(expand_word_for_exec("\\$X", &env, 0), Ok("$X".to_string()));
    assert_eq!(expand_word_for_exec("\"\\$X\"", &env, 0), Ok("$X".to_string()));
    assert_eq!(expand_word_for_exec("\"\\a$X\"", &env, 0), Ok("\\avalue".to_string()));
    assert_eq!(expand_word_for_exec("a\\ b", &env, 0), Ok("a b".to_string()));
}

#[test]
fn a_plain_quoted_start_is_followed_by_the_rest() {
    let mut env = ShellEnvironment::new();
    env.set("X", "v");
    let start = expand_word_for_exec("'a b'c", &env, 0).unwrap();
    let rest = expand_word_for_exec("$X\"!\"", &env, 0).unwrap();
    assert_eq!(expand_word_for_exec("'a b'c$X\"!\"", &env, 0), Ok(start + &rest));
    assert_eq!(expand_word_for_exec("'a'\"", &env, 0), Err(LexError::UnclosedQuote));
}
