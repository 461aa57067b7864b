use cfront::error::{CompilerError, Expected, LexError, ParseError};
use cfront::token::{Span, StaticToken, Token, TokenType};

#[test]
fn unexpected_eof_constructor() {
    let e = ParseError::unexpected_eof(Expected::Identifier);
    assert!(matches!(e, ParseError::UnexpectedEof { expected: Expected::Identifier }));
}

#[test]
fn unexpected_token_constructor() {
    let e = ParseError::unexpected_token(
        Expected::Token(StaticToken::Semicolon),
        TokenType::Constant(7),
    );
    match e {
        ParseError::UnexpectedToken { expected, found } => {
            assert_eq!(expected, Expected::Token(StaticToken::Semicolon));
            assert_eq!(found, TokenType::Constant(7));
        },
        other => panic!("expected a token mismatch, got {:?}", other),
    }
}

#[test]
fn unexpected_constructor_dispatches_on_found() {
    let some = ParseError::unexpected(Expected::Type, Some(TokenType::Constant(1)));
    assert!(matches!(some, ParseError::UnexpectedToken { .. }));
    let none = ParseError::unexpected(Expected::Type, None);
    assert!(matches!(none, ParseError::UnexpectedEof { expected: Expected::Type }));
}

#[test]
fn compiler_error_carries_span() {
    let span = Span::new(3, 4, 1, 4);
    let e = CompilerError::new(LexError::UnrecognizedCharacter, span);
    assert_eq!(e.error, LexError::UnrecognizedCharacter);
    assert_eq!(e.span, span);
}

#[test]
fn from_peeked_token_uses_the_token_span() {
    let span = Span::new(5, 6, 1, 6);
    let eof_span = Span::new(10, 10, 2, 1);
    let tok = Token::new(TokenType::Static(StaticToken::Comma), span);
    let e = CompilerError::from_peeked_token(
        Expected::Token(StaticToken::Semicolon),
        Some(tok),
        eof_span,
    );
    assert!(matches!(e.error, ParseError::UnexpectedToken { .. }));
    assert_eq!(e.span, span);
}

#[test]
fn from_peeked_token_uses_the_eof_span_at_end() {
    let eof_span = Span::new(10, 10, 2, 1);
    let e = CompilerError::from_peeked_token(Expected::Statement, None, eof_span);
    assert!(matches!(e.error, ParseError::UnexpectedEof { expected: Expected::Statement }));
    assert_eq!(e.span, eof_span);
}
