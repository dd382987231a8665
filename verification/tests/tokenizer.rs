use clash::tokenizer::shell_split;
use clash::types::BenchError;

fn split_ok(cmd: &str) -> Vec<String> {
    shell_split(cmd).expect("expected tokens")
}

#[test]
fn splits_plain_words() {
    assert_eq!(split_ok("echo hello"), vec!["echo", "hello"]);
}

#[test]
fn double_quotes_keep_spaces() {
    assert_eq!(split_ok("echo \"a b\""), vec!["echo", "a b"]);
}

#[test]
fn single_quotes_keep_spaces() {
    assert_eq!(split_ok("echo 'a b'"), vec!["echo", "a b"]);
}

#[test]
fn backslash_escapes_a_space() {
    assert_eq!(split_ok("echo a\\ b"), vec!["echo", "a b"]);
}

#[test]
fn unterminated_double_quote_fails() {
    assert_eq!(shell_split("echo \"unterminated"), Err(BenchError::UnclosedQuote));
}

#[test]
fn unterminated_single_quote_fails() {
    assert_eq!(shell_split("echo 'open"), Err(BenchError::UnclosedQuote));
}

#[test]
fn all_whitespace_is_empty_command() {
    assert_eq!(shell_split("   "), Err(BenchError::EmptyCommand));
}

#[test]
fn empty_string_is_empty_command() {
    assert_eq!(shell_split(""), Err(BenchError::EmptyCommand));
}

#[test]
fn tabs_separate_tokens() {
    assert_eq!(split_ok("ls\t-l\t/tmp"), vec!["ls", "-l", "/tmp"]);
}

#[test]
fn backslash_is_literal_in_single_quotes() {
    assert_eq!(split_ok("echo 'a\\b'"), vec!["echo", "a\\b"]);
}

#[test]
fn backslash_escapes_inside_double_quotes() {
    assert_eq!(split_ok("echo \"a\\\"b\""), vec!["echo", "a\"b"]);
}

#[test]
fn trailing_backslash_is_dropped() {
    assert_eq!(split_ok("echo \\"), vec!["echo"]);
}

#[test]
fn quotes_join_with_adjacent_text() {
    assert_eq!(split_ok("echo pre'a b'post"), vec!["echo", "prea bpost"]);
}

#[test]
fn empty_quotes_yield_no_token() {
    assert_eq!(shell_split("'' \"\""), Err(BenchError::EmptyCommand));
}
