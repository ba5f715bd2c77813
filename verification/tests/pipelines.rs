use line_parser::LineParser;

fn parse(line: &str) -> Option<Vec<Vec<String>>> {
    LineParser::new().parse_line(line)
}

fn pipeline(expected: &[&[&str]]) -> Option<Vec<Vec<String>>> {
    Some(
        expected
            .iter()
            .map(|command| command.iter().map(|token| token.to_string()).collect())
            .collect(),
    )
}

#[test]
fn empty_line_yields_nothing() {
    assert_eq!(parse(""), None);
}

#[test]
fn blank_lines_yield_nothing() {
    assert_eq!(parse(" "), None);
    assert_eq!(parse("   \t  "), None);
    assert_eq!(parse("|"), None);
    assert_eq!(parse("| | |"), None);
    assert_eq!(parse(" \t|\n|  \u{3000}"), None);
}

#[test]
fn single_word() {
    assert_eq!(parse("ls"), pipeline(&[&["ls"]]));
}

#[test]
fn words_split_at_white_space() {
    assert_eq!(parse("ls -l /tmp"), pipeline(&[&["ls", "-l", "/tmp"]]));
}

#[test]
fn quoting_neutralizes_white_space_and_pipe() {
    assert_eq!(parse("a \"b c|d\" e"), pipeline(&[&["a", "b c|d", "e"]]));
    assert_eq!(parse("a 'b c|d' e"), pipeline(&[&["a", "b c|d", "e"]]));
}

#[test]
fn escape_neutralizes_space() {
    assert_eq!(parse("a\\ b"), pipeline(&[&["a b"]]));
}

#[test]
fn escape_neutralizes_pipe() {
    assert_eq!(parse("a\\|b"), pipeline(&[&["a|b"]]));
}

#[test]
fn escape_neutralizes_quote_and_backslash() {
    assert_eq!(parse("a\\\"b"), pipeline(&[&["a\"b"]]));
    assert_eq!(parse("a\\'b"), pipeline(&[&["a'b"]]));
    assert_eq!(parse("a\\\\b"), pipeline(&[&["a\\b"]]));
}

#[test]
fn escaped_quote_inside_quotes_does_not_close() {
    assert_eq!(parse("\"a\\\"b\""), pipeline(&[&["a\"b"]]));
    assert_eq!(parse("'a\\'b'"), pipeline(&[&["a'b"]]));
}

#[test]
fn escape_inside_quotes_takes_any_character() {
    assert_eq!(parse("\"a\\nb\""), pipeline(&[&["anb"]]));
    assert_eq!(parse("\"a\\\\b\""), pipeline(&[&["a\\b"]]));
}

#[test]
fn other_quote_inside_quotes_is_literal() {
    assert_eq!(parse("\"it's\""), pipeline(&[&["it's"]]));
    assert_eq!(parse("'say \"hi\"'"), pipeline(&[&["say \"hi\""]]));
}

#[test]
fn pipe_splits_into_commands() {
    assert_eq!(parse("ls -l | grep foo"), pipeline(&[&["ls", "-l"], &["grep", "foo"]]));
}

#[test]
fn pipe_needs_no_space_around_it() {
    assert_eq!(parse("ls|wc"), pipeline(&[&["ls"], &["wc"]]));
}

#[test]
fn three_commands_keep_their_order() {
    assert_eq!(
        parse("cat f | sort -u | head -3"),
        pipeline(&[&["cat", "f"], &["sort", "-u"], &["head", "-3"]])
    );
}

#[test]
fn unterminated_quote_yields_nothing() {
    assert_eq!(parse("echo \"abc"), None);
    assert_eq!(parse("echo 'abc"), None);
    assert_eq!(parse("ls | echo \"abc"), None);
}

#[test]
fn trailing_backslash_yields_nothing() {
    assert_eq!(parse("echo abc\\"), None);
    assert_eq!(parse("echo \"abc\\"), None);
}

#[test]
fn empty_commands_are_dropped() {
    assert_eq!(parse("| ls |"), pipeline(&[&["ls"]]));
    assert_eq!(parse("a | | b"), pipeline(&[&["a"], &["b"]]));
    assert_eq!(parse("a || b"), pipeline(&[&["a"], &["b"]]));
    assert_eq!(parse("ls |"), pipeline(&[&["ls"]]));
}

#[test]
fn consecutive_white_space_collapses() {
    assert_eq!(parse("a    b"), pipeline(&[&["a", "b"]]));
    assert_eq!(parse("  a \t b  "), pipeline(&[&["a", "b"]]));
}

#[test]
fn empty_quotes_make_no_token() {
    assert_eq!(parse("\"\""), None);
    assert_eq!(parse("a \"\" b"), pipeline(&[&["a", "b"]]));
    assert_eq!(parse("a '' b"), pipeline(&[&["a", "b"]]));
}

#[test]
fn quote_next_to_bare_text_joins_it() {
    assert_eq!(parse("a\"b c\"d"), pipeline(&[&["ab cd"]]));
    assert_eq!(parse("'a'\"b\""), pipeline(&[&["ab"]]));
}

#[test]
fn token_is_trimmed_at_both_ends() {
    assert_eq!(parse("\"  a b  \""), pipeline(&[&["a b"]]));
    assert_eq!(parse("a\\ "), pipeline(&[&["a"]]));
    assert_eq!(parse("\\ a"), pipeline(&[&["a"]]));
    assert_eq!(parse("\" \\\t x \u{a0}\""), pipeline(&[&["x"]]));
}

#[test]
fn token_of_white_space_only_is_dropped() {
    assert_eq!(parse("\"   \""), None);
    assert_eq!(parse("\\ "), None);
    assert_eq!(parse("a \" \" b"), pipeline(&[&["a", "b"]]));
}

#[test]
fn newline_is_white_space() {
    assert_eq!(parse("a\nb"), pipeline(&[&["a", "b"]]));
    assert_eq!(parse("a\r\nb\n"), pipeline(&[&["a", "b"]]));
}

#[test]
fn wildcards_are_left_alone() {
    assert_eq!(parse("ls *.rs ?x [a-z]"), pipeline(&[&["ls", "*.rs", "?x", "[a-z]"]]));
}

#[test]
fn characters_outside_ascii_are_literals() {
    assert_eq!(parse("echo héllo 越"), pipeline(&[&["echo", "héllo", "越"]]));
}

#[test]
fn rejoined_command_parses_to_itself() {
    let first = parse("  grep   -n 'foo'  \"src/lib.rs\" ").unwrap();
    assert_eq!(first.len(), 1);
    let joined = first[0].join(" ");
    assert_eq!(joined, "grep -n foo src/lib.rs");
    assert_eq!(parse(&joined), Some(first));
}

#[test]
fn rejoined_command_with_pipe_in_a_token_splits() {
    let first = parse("a\\|b").unwrap();
    let joined = first[0].join(" ");
    assert_eq!(parse(&joined), pipeline(&[&["a"], &["b"]]));
}

#[test]
fn every_command_and_token_is_non_empty() {
    let lines = [
        "a | b",
        "|||a|||",
        "\"\" | \" \" | x",
        " a '' \"\"  b | | c\\ ",
        "\\ \\ | y",
    ];
    for line in lines {
        if let Some(commands) = parse(line) {
            assert!(!commands.is_empty());
            for command in &commands {
                assert!(!command.is_empty());
                for token in command {
                    assert!(!token.is_empty());
                    assert_eq!(token.trim(), token);
                }
            }
        }
    }
}
