use lox_scanner::lox::{mode_for, prompt_action, Lox, Mode, PromptAction, EXIT_DATA_ERROR};
use lox_scanner::scanner::{LexError, LexErrorKind, Scanner};
use lox_scanner::token::{Literal, Token, TokenKind};

fn scan(source: &str) -> (Vec<Token>, Vec<LexError>) {
    let mut scanner = Scanner::new(source);
    scanner.scan();
    scanner.into_parts()
}

fn number(t: &Token) -> f64 {
    match &t.kind {
        TokenKind::Literal(Literal::Number(text)) => text.parse().unwrap(),
        other => panic!("not a number: {:?}", other),
    }
}

#[test]
fn empty_input_gives_only_end_marker() {
    let (tokens, errors) = scan("");
    assert_eq!(tokens.len(), 1);
    assert!(matches!(tokens[0].kind, TokenKind::EndOfInput));
    assert_eq!(tokens[0].lexeme, "");
    assert_eq!(tokens[0].line, 1);
    assert!(errors.is_empty());
}

#[test]
fn whitespace_only_input_counts_lines() {
    let (tokens, errors) = scan(" \t\r\n\n  ");
    assert_eq!(tokens.len(), 1);
    assert!(matches!(tokens[0].kind, TokenKind::EndOfInput));
    assert_eq!(tokens[0].line, 3);
    assert!(errors.is_empty());
}

#[test]
fn end_marker_is_last_and_unique() {
    let (tokens, _) = scan("(){},.-+;*/ ! != = == < <= > >= \"s\" 12.5 @");
    assert!(matches!(tokens.last().unwrap().kind, TokenKind::EndOfInput));
    let ends = tokens.iter().filter(|t| matches!(t.kind, TokenKind::EndOfInput)).count();
    assert_eq!(ends, 1);
}

#[test]
fn every_character_is_accounted_for() {
    // five characters that no rule accepts, three tokens, blanks between them
    let (tokens, errors) = scan("@ ( # ) $ + % ^");
    assert_eq!(errors.len(), 5);
    assert_eq!(tokens.len(), 4);
    let lexemes: Vec<&str> = tokens.iter().map(|t| t.lexeme.as_str()).collect();
    assert_eq!(lexemes, vec!["(", ")", "+", ""]);
}

#[test]
fn independent_scans_agree() {
    let text = "var x = \"a\nb\" // note\n(1.5 != 2) @";
    let (t1, e1) = scan(text);
    let (t2, e2) = scan(text);
    assert_eq!(format!("{:?}", t1), format!("{:?}", t2));
    assert_eq!(e1, e2);
}

#[test]
fn lines_are_tracked_across_errors() {
    let (tokens, errors) = scan("a\nb\nc");
    assert_eq!(
        errors,
        vec![
            LexError { line: 1, kind: LexErrorKind::UnexpectedCharacter('a') },
            LexError { line: 2, kind: LexErrorKind::UnexpectedCharacter('b') },
            LexError { line: 3, kind: LexErrorKind::UnexpectedCharacter('c') },
        ]
    );
    assert_eq!(tokens.len(), 1);
    assert!(matches!(tokens[0].kind, TokenKind::EndOfInput));
    assert_eq!(tokens[0].line, 3);
}

#[test]
fn parenthesised_sum() {
    let (tokens, errors) = scan("(+ 2 3.5)");
    assert!(errors.is_empty());
    assert_eq!(tokens.len(), 6);
    assert!(matches!(tokens[0].kind, TokenKind::LeftParen));
    assert!(matches!(tokens[1].kind, TokenKind::Plus));
    assert_eq!(number(&tokens[2]), 2.0);
    assert_eq!(number(&tokens[3]), 3.5);
    assert!(matches!(tokens[4].kind, TokenKind::RightParen));
    assert!(matches!(tokens[5].kind, TokenKind::EndOfInput));
    assert_eq!(tokens[3].lexeme, "3.5");
}

#[test]
fn comment_only_line() {
    let (tokens, errors) = scan("// comment only\n");
    assert!(errors.is_empty());
    assert_eq!(tokens.len(), 1);
    assert!(matches!(tokens[0].kind, TokenKind::EndOfInput));
    assert_eq!(tokens[0].line, 2);
}

#[test]
fn comment_without_newline_at_end() {
    let (tokens, errors) = scan("+ // trailing ( ) \"");
    assert!(errors.is_empty());
    assert_eq!(tokens.len(), 2);
    assert!(matches!(tokens[0].kind, TokenKind::Plus));
    assert_eq!(tokens[1].line, 1);
}

#[test]
fn bang_equal_and_fallbacks() {
    let (tokens, errors) = scan("!= = !");
    assert!(errors.is_empty());
    assert_eq!(tokens.len(), 4);
    assert!(matches!(tokens[0].kind, TokenKind::BangEqual));
    assert_eq!(tokens[0].lexeme, "!=");
    assert!(matches!(tokens[1].kind, TokenKind::Equal));
    assert!(matches!(tokens[2].kind, TokenKind::Bang));
    assert!(matches!(tokens[3].kind, TokenKind::EndOfInput));
}

#[test]
fn two_character_operators_look_one_ahead() {
    let (tokens, _) = scan("<== >= > <");
    let kinds: Vec<String> = tokens.iter().map(|t| format!("{:?}", t.kind)).collect();
    assert_eq!(kinds, vec!["LessEqual", "Equal", "GreaterEqual", "Greater", "Less", "EndOfInput"]);
}

#[test]
fn unterminated_string() {
    let (tokens, errors) = scan("\"abc");
    assert_eq!(tokens.len(), 1);
    assert!(matches!(tokens[0].kind, TokenKind::EndOfInput));
    assert_eq!(errors, vec![LexError { line: 1, kind: LexErrorKind::UnterminatedString }]);
}

#[test]
fn lone_quote_is_unterminated() {
    let (tokens, errors) = scan("+\"");
    assert_eq!(tokens.len(), 2);
    assert_eq!(errors, vec![LexError { line: 1, kind: LexErrorKind::UnterminatedString }]);
}

#[test]
fn unterminated_string_reports_its_last_line() {
    let (tokens, errors) = scan("\"a\nb\n");
    assert_eq!(errors, vec![LexError { line: 3, kind: LexErrorKind::UnterminatedString }]);
    assert_eq!(tokens[0].line, 3);
}

#[test]
fn trailing_point_stays_in_number() {
    let (tokens, errors) = scan("123.");
    assert!(errors.is_empty());
    assert_eq!(tokens.len(), 2);
    assert_eq!(tokens[0].lexeme, "123.");
    assert_eq!(number(&tokens[0]), 123.0);
}

#[test]
fn string_literal_value_and_lines() {
    let (tokens, errors) = scan("\"one\ntwo\" +");
    assert!(errors.is_empty());
    assert_eq!(tokens.len(), 3);
    match &tokens[0].kind {
        TokenKind::Literal(Literal::String(v)) => assert_eq!(v, "one\ntwo"),
        other => panic!("not a string: {:?}", other),
    }
    assert_eq!(tokens[0].lexeme, "\"one\ntwo\"");
    assert_eq!(tokens[0].line, 1);
    assert_eq!(tokens[1].line, 2);
    assert_eq!(tokens[2].line, 2);
}

#[test]
fn single_character_operators() {
    let (tokens, errors) = scan("(){},.-+;*/");
    assert!(errors.is_empty());
    let kinds: Vec<String> = tokens.iter().map(|t| format!("{:?}", t.kind)).collect();
    assert_eq!(
        kinds,
        vec![
            "LeftParen", "RightParen", "LeftBrace", "RightBrace", "Comma", "Dot", "Minus",
            "Plus", "Semicolon", "Star", "Slash", "EndOfInput"
        ]
    );
}

#[test]
fn number_then_dot_operator() {
    let (tokens, _) = scan("1.2.3");
    assert_eq!(tokens.len(), 4);
    assert_eq!(tokens[0].lexeme, "1.2");
    assert!(matches!(tokens[1].kind, TokenKind::Dot));
    assert_eq!(number(&tokens[2]), 3.0);
}

#[test]
fn non_ascii_characters_are_errors() {
    let (tokens, errors) = scan("é\"ü\"");
    assert_eq!(errors, vec![LexError { line: 1, kind: LexErrorKind::UnexpectedCharacter('é') }]);
    match &tokens[0].kind {
        TokenKind::Literal(Literal::String(v)) => assert_eq!(v, "ü"),
        other => panic!("not a string: {:?}", other),
    }
}

#[test]
fn scan_returns_the_tokens_it_keeps() {
    let mut scanner = Scanner::new("+ -");
    let n = scanner.scan().len();
    assert_eq!(n, 3);
    assert!(scanner.errors().is_empty());
}

#[test]
fn token_new_copies_the_lexeme() {
    let t = Token::new(TokenKind::Plus, "+", 4);
    assert_eq!(t.lexeme, "+");
    assert_eq!(t.line, 4);
}

#[test]
fn session_error_flag() {
    let mut lox = Lox::new();
    assert!(!lox.had_error());
    assert_eq!(lox.exit_status(), None);
    let report = lox.run("1 + 2");
    assert_eq!(report.tokens.len(), 4);
    assert!(!lox.had_error());
    let report = lox.run("1 @ 2");
    assert_eq!(report.errors.len(), 1);
    assert!(lox.had_error());
    assert_eq!(lox.exit_status(), Some(EXIT_DATA_ERROR));
    lox.run("3");
    assert!(lox.had_error());
    lox.reset_error();
    assert!(!lox.had_error());
}

#[test]
fn modes_and_prompt_lines() {
    assert_eq!(mode_for(1), Mode::Prompt);
    assert_eq!(mode_for(2), Mode::RunFile);
    assert_eq!(mode_for(3), Mode::Usage);
    assert_eq!(prompt_action(""), PromptAction::Stop);
    assert_eq!(prompt_action("\n"), PromptAction::Skip);
    assert_eq!(prompt_action("1\n"), PromptAction::Run);
}
