use line_parser::{LexState, LineParser};

fn command(tokens: &[&str]) -> Vec<String> {
    tokens.iter().map(|token| token.to_string()).collect()
}

#[test]
fn parser_is_fresh_after_a_complete_line() {
    let mut parser = LineParser::new();
    assert_eq!(parser.parse_line("ls -l"), Some(vec![command(&["ls", "-l"])]));
    assert_eq!(parser.parse_line(""), None);
    assert_eq!(parser.parse_line("wc"), Some(vec![command(&["wc"])]));
}

#[test]
fn parser_is_fresh_after_a_blank_line() {
    let mut parser = LineParser::new();
    assert_eq!(parser.parse_line("  | "), None);
    assert_eq!(parser.parse_line("a|b"), Some(vec![command(&["a"]), command(&["b"])]));
}

#[test]
fn open_quote_is_carried_to_the_next_line() {
    let mut parser = LineParser::new();
    assert_eq!(parser.parse_line("ls | echo \"abc"), None);
    assert_eq!(
        parser.parse_line(" def\" x"),
        Some(vec![command(&["ls"]), command(&["echo", "abc def", "x"])])
    );
    assert_eq!(parser.parse_line("x"), Some(vec![command(&["x"])]));
}

#[test]
fn open_escape_is_carried_to_the_next_line() {
    let mut parser = LineParser::new();
    assert_eq!(parser.parse_line("a\\"), None);
    assert_eq!(parser.parse_line("|b"), Some(vec![command(&["a|b"])]));
}

#[test]
fn open_escape_in_quote_is_carried_to_the_next_line() {
    let mut parser = LineParser::new();
    assert_eq!(parser.parse_line("'a\\"), None);
    assert_eq!(parser.parse_line("'b"), None);
    assert_eq!(parser.parse_line("c' d"), Some(vec![command(&["a'bc", "d"])]));
}

#[test]
fn default_parser_is_fresh() {
    let mut parser = LineParser::default();
    assert_eq!(parser.parse_line("a b"), Some(vec![command(&["a", "b"])]));
}

#[test]
fn default_state_is_bare() {
    assert_eq!(LexState::default(), LexState::Bare);
}
