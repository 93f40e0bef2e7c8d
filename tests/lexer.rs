use unlisp::lexer::{is_eof, Lexer, Token};

#[test]
fn lexer_test_integer_literal() {
    let mut lexer = Lexer::create("1 12 1000 2019");

    assert_eq!(lexer.next_token().unwrap(), Token::IntegerLiteral(1));
    assert_eq!(lexer.next_token().unwrap(), Token::IntegerLiteral(12));
    assert_eq!(lexer.next_token().unwrap(), Token::IntegerLiteral(1000));
    assert_eq!(lexer.next_token().unwrap(), Token::IntegerLiteral(2019));
}

#[test]
fn lexer_test_string_literal() {
    let mut lexer = Lexer::create("\"\" \"foo\" \"bar\"");

    assert_eq!(lexer.next_token().unwrap(), Token::StringLiteral("".to_string()));
    assert_eq!(lexer.next_token().unwrap(), Token::StringLiteral("foo".to_string()));
    assert_eq!(lexer.next_token().unwrap(), Token::StringLiteral("bar".to_string()));
}

#[test]
fn test_incomplete_string() {
    let mut lexer = Lexer::create("\"foo");

    assert!(is_eof(&lexer.next_token()));
}

#[test]
fn lexer_test_symbol() {
    let mut lexer = Lexer::create("x foo bar*");

    assert_eq!(lexer.next_token().unwrap(), Token::Symbol("x".to_string()));
    assert_eq!(lexer.next_token().unwrap(), Token::Symbol("foo".to_string()));
    assert_eq!(lexer.next_token().unwrap(), Token::Symbol("bar*".to_string()));
}

#[test]
fn test_parens() {
    let mut lexer = Lexer::create("( ) (");

    assert_eq!(lexer.next_token().unwrap(), Token::LeftPar);
    assert_eq!(lexer.next_token().unwrap(), Token::RightPar);
    assert_eq!(lexer.next_token().unwrap(), Token::LeftPar);
}

#[test]
fn test_comments() {
    let mut lexer = Lexer::create(";; this is comment \n foo");

    assert_eq!(lexer.next_token().unwrap(), Token::Symbol("foo".to_string()));
}

#[test]
fn lexer_integer_overflow_is_an_error() {
    let mut lexer = Lexer::create("9223372036854775807 9223372036854775808");

    assert_eq!(lexer.next_token().unwrap(), Token::IntegerLiteral(9223372036854775807));
    assert_eq!(lexer.next_token(), Err(unlisp::lexer::LexError::IntegerOverflow));
}

#[test]
fn lexer_unexpected_character() {
    let mut lexer = Lexer::create("# x");

    assert_eq!(lexer.next_token().unwrap(), Token::Unexpected);
    assert_eq!(lexer.next_token().unwrap(), Token::Symbol("x".to_string()));
    assert!(is_eof(&lexer.next_token()));
}

#[test]
fn lexer_comment_without_newline_ends_input() {
    let mut lexer = Lexer::create("; only a comment");

    assert!(is_eof(&lexer.next_token()));
}
