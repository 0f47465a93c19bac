use ftp_server::parse::parse_user_input;
use ftp_server::text::{eq_up_to_case, strip_line, tokenize};

#[test]
fn parses_verb_and_argument() {
    let p = parse_user_input("USER bob\r\n");
    assert_eq!(p.input.as_str(), "USER bob");
    assert_eq!(p.argv.len(), 2);
    assert_eq!(p.argv[0].as_str(), "USER");
    assert_eq!(p.argv[1].as_str(), "bob");
}

#[test]
fn parses_bare_newline_terminator() {
    let p = parse_user_input("QUIT\n");
    assert_eq!(p.input.as_str(), "QUIT");
    assert_eq!(p.argv.len(), 1);
    assert_eq!(p.argv[0].as_str(), "QUIT");
}

#[test]
fn parses_empty_line() {
    let p = parse_user_input("\r\n");
    assert_eq!(p.input.as_str(), "");
    assert_eq!(p.argv.len(), 0);
}

#[test]
fn collapses_runs_of_whitespace() {
    let p = parse_user_input("  USER \t  alice  \r\n");
    assert_eq!(p.argv.len(), 2);
    assert_eq!(p.argv[0].as_str(), "USER");
    assert_eq!(p.argv[1].as_str(), "alice");
}

#[test]
fn strips_only_trailing_terminators() {
    let s = strip_line("a\r\nb\r\n\r\n");
    assert_eq!(s.as_str(), "a\r\nb");
}

#[test]
fn embedded_line_breaks_separate_tokens() {
    let toks = tokenize("USER a\nPASS b");
    let words: Vec<&str> = toks.iter().map(|t| t.as_str()).collect();
    assert_eq!(words, vec!["USER", "a", "PASS", "b"]);
}

#[test]
fn case_folding_is_ascii_only() {
    assert!(eq_up_to_case("quit", "QUIT"));
    assert!(eq_up_to_case("QuIt", "qUiT"));
    assert!(!eq_up_to_case("QUIT", "QUI"));
    assert!(!eq_up_to_case("PASS", "PAST"));
    assert!(eq_up_to_case("", ""));
}
