use shell::parser::{parse_arguments, ParsedCommand, RedirectMode};

fn args_of(p: &ParsedCommand) -> Vec<&str> {
    p.args.iter().map(|s| s.as_str()).collect()
}

fn target(r: &Option<(String, RedirectMode)>) -> Option<(&str, RedirectMode)> {
    r.as_ref().map(|(p, m)| (p.as_str(), *m))
}

#[test]
fn single_quotes_keep_spaces_and_blanks_collapse() {
    let p = parse_arguments("echo 'a b'  c");
    assert_eq!(args_of(&p), vec!["echo", "a b", "c"]);
    assert!(p.stdout_redirect.is_none());
    assert!(p.stderr_redirect.is_none());
}

#[test]
fn escaped_quote_inside_double_quotes() {
    let p = parse_arguments("echo \"a\\\"b\"");
    assert_eq!(args_of(&p), vec!["echo", "a\"b"]);
    assert!(p.stdout_redirect.is_none());
}

#[test]
fn stderr_append_redirect() {
    let p = parse_arguments("ls 2>> err.log");
    assert_eq!(args_of(&p), vec!["ls"]);
    assert!(p.stdout_redirect.is_none());
    assert_eq!(target(&p.stderr_redirect), Some(("err.log", RedirectMode::Append)));
}

#[test]
fn both_streams_redirected() {
    let p = parse_arguments("cmd 1> out.txt 2> err.txt");
    assert_eq!(args_of(&p), vec!["cmd"]);
    assert_eq!(target(&p.stdout_redirect), Some(("out.txt", RedirectMode::Write)));
    assert_eq!(target(&p.stderr_redirect), Some(("err.txt", RedirectMode::Write)));
}

#[test]
fn later_redirect_of_same_stream_wins() {
    let p = parse_arguments("cmd > first.txt > second.txt");
    assert_eq!(args_of(&p), vec!["cmd"]);
    assert_eq!(target(&p.stdout_redirect), Some(("second.txt", RedirectMode::Write)));
    assert!(p.stderr_redirect.is_none());
}

#[test]
fn empty_line_gives_nothing() {
    let p = parse_arguments("");
    assert!(p.args.is_empty());
    assert!(p.stdout_redirect.is_none());
    assert!(p.stderr_redirect.is_none());
}

#[test]
fn blank_line_gives_no_argument() {
    let p = parse_arguments(" \t  ");
    assert!(p.args.is_empty());
}

#[test]
fn plain_words_rejoin_to_collapsed_line() {
    let p = parse_arguments("  echo   hello \t world  ");
    assert_eq!(p.args.join(" "), "echo hello world");
}

#[test]
fn backslash_outside_quotes_escapes_next() {
    let p = parse_arguments("echo a\\ b c\\'d");
    assert_eq!(args_of(&p), vec!["echo", "a b", "c'd"]);
}

#[test]
fn trailing_backslash_is_literal() {
    let p = parse_arguments("echo x\\");
    assert_eq!(args_of(&p), vec!["echo", "x\\"]);
}

#[test]
fn backslash_literal_in_single_quotes() {
    let p = parse_arguments("echo 'a\\nb'");
    assert_eq!(args_of(&p), vec!["echo", "a\\nb"]);
}

#[test]
fn backslash_before_ordinary_char_in_double_quotes() {
    let p = parse_arguments("echo \"a\\nb\" \"c\\\\d\" \"e\\$f\"");
    assert_eq!(args_of(&p), vec!["echo", "a\\nb", "c\\d", "e$f"]);
}

#[test]
fn adjacent_quoted_parts_join() {
    let p = parse_arguments("echo 'a'\"b\"c");
    assert_eq!(args_of(&p), vec!["echo", "abc"]);
}

#[test]
fn quote_only_token_is_dropped() {
    let p = parse_arguments("echo '' x");
    assert_eq!(args_of(&p), vec!["echo", "x"]);
}

#[test]
fn unterminated_quote_runs_to_end() {
    let p = parse_arguments("echo 'a b  ");
    assert_eq!(args_of(&p), vec!["echo", "a b  "]);
}

#[test]
fn lone_operator_defaults_to_stdout() {
    let p = parse_arguments("echo hi >out.txt");
    assert_eq!(args_of(&p), vec!["echo", "hi"]);
    assert_eq!(target(&p.stdout_redirect), Some(("out.txt", RedirectMode::Write)));
}

#[test]
fn append_to_stdout() {
    let p = parse_arguments("echo hi >> log");
    assert_eq!(target(&p.stdout_redirect), Some(("log", RedirectMode::Append)));
}

#[test]
fn digit_glued_to_word_is_not_a_stream() {
    let p = parse_arguments("echo a2> f");
    assert_eq!(args_of(&p), vec!["echo", "a2"]);
    assert_eq!(target(&p.stdout_redirect), Some(("f", RedirectMode::Write)));
    assert!(p.stderr_redirect.is_none());
}

#[test]
fn quoted_target_name() {
    let p = parse_arguments("echo x > 'my file' \"z\\\"q\"");
    assert_eq!(args_of(&p), vec!["echo", "x", "z\"q"]);
    assert_eq!(target(&p.stdout_redirect), Some(("my file", RedirectMode::Write)));
}

#[test]
fn operator_at_end_gives_empty_target() {
    let p = parse_arguments("echo x >");
    assert_eq!(args_of(&p), vec!["echo", "x"]);
    assert_eq!(target(&p.stdout_redirect), Some(("", RedirectMode::Write)));
}

#[test]
fn quoted_operator_is_text() {
    let p = parse_arguments("echo '>' \">>\"");
    assert_eq!(args_of(&p), vec!["echo", ">", ">>"]);
    assert!(p.stdout_redirect.is_none());
}

#[test]
fn arguments_after_target_continue() {
    let p = parse_arguments("echo a > f b");
    assert_eq!(args_of(&p), vec!["echo", "a", "b"]);
    assert_eq!(target(&p.stdout_redirect), Some(("f", RedirectMode::Write)));
}

#[test]
fn non_ascii_text() {
    let p = parse_arguments("echo 'héllo wörld' ñ");
    assert_eq!(args_of(&p), vec!["echo", "héllo wörld", "ñ"]);
}

#[test]
fn explicit_stdout_redirect_replaces_earlier_and_keeps_stderr() {
    let p = parse_arguments("cmd 2> e.txt > a.txt x 1> b.txt");
    assert_eq!(args_of(&p), vec!["cmd", "x"]);
    assert_eq!(target(&p.stdout_redirect), Some(("b.txt", RedirectMode::Write)));
    assert_eq!(target(&p.stderr_redirect), Some(("e.txt", RedirectMode::Write)));
}
