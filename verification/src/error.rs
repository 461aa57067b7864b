//! The error model: lexer failures, parser failures, and the span-carrying
//! wrapper that makes every failure locatable in the source text.

use vstd::prelude::*;

use crate::token::{Span, SpecTokenType, StaticToken, Token, TokenType};

verus! {

/// A failure of the tokenizer.
#[derive(Debug, Clone, Copy, PartialEq, Eq, Structural)]
pub enum LexError {
    /// a byte that starts no token production
    UnrecognizedCharacter,
    /// a numeric literal whose value does not fit a constant
    MalformedNumber,
    /// a block comment still open at end of input
    UnterminatedComment,
}

impl View for LexError {
    type V = LexError;

    open spec fn view(&self) -> LexError {
        *self
    }
}

/// What the parser was looking for when it failed.
#[derive(Debug, Clone, Copy, PartialEq, Eq, Structural)]
pub enum Expected {
    /// a specific static token
    Token(StaticToken),
    /// any identifier
    Identifier,
    /// a type keyword
    Type,
    /// a token that can start an expression
    Expression,
    /// a token that can start a statement
    Statement,
    /// at least one function definition
    FunctionOrDeclaration,
}

/// The mathematical model of a `ParseError`.
pub enum SpecParseError {
    LexError(LexError),
    UnexpectedToken { expected: Expected, found: SpecTokenType },
    UnexpectedEof { expected: Expected },
}

/// A failure of the parser.
#[derive(Debug)]
pub enum ParseError {
    /// the tokenizer failed while the parser was pulling tokens
    LexError(LexError),
    /// a specific token was required, but a different one was found
    UnexpectedToken { expected: Expected, found: TokenType },
    /// a specific token was required, but the input ended
    UnexpectedEof { expected: Expected },
}

impl View for ParseError {
    type V = SpecParseError;

    open spec fn view(&self) -> SpecParseError {
        match self {
            ParseError::LexError(e) => SpecParseError::LexError(*e),
            ParseError::UnexpectedToken { expected, found } => SpecParseError::UnexpectedToken {
                expected: *expected,
                found: found@,
            },
            ParseError::UnexpectedEof { expected } => SpecParseError::UnexpectedEof {
                expected: *expected,
            },
        }
    }
}

impl ParseError {
    /// An error for a required token that never came: the input ended first.
    pub fn unexpected_eof(expected: Expected) -> (r: Self)
        ensures
            r@ == (SpecParseError::UnexpectedEof { expected }),
    {
        ParseError::UnexpectedEof { expected }
    }

    /// An error for a required token when a different one was found.
    pub fn unexpected_token(expected: Expected, found: TokenType) -> (r: Self)
        ensures
            r@ == (SpecParseError::UnexpectedToken { expected, found: found@ }),
    {
        ParseError::UnexpectedToken { expected, found }
    }

    /// An error for a required token: end-of-input or a mismatch, depending
    /// on whether anything was found at all.
    pub fn unexpected(expected: Expected, found: Option<TokenType>) -> (r: Self)
        ensures
            r@ == match found {
                Some(kind) => SpecParseError::UnexpectedToken { expected, found: kind@ },
                None => SpecParseError::UnexpectedEof { expected },
            },
    {
        match found {
            Some(kind) => ParseError::unexpected_token(expected, kind),
            None => ParseError::unexpected_eof(expected),
        }
    }
}

/// An error together with the span of the offending source text.
#[derive(Debug, Clone, Copy, PartialEq, Eq)]
pub struct CompilerError<E> {
    pub error: E,
    pub span: Span,
}

impl<E: View> View for CompilerError<E> {
    type V = CompilerError<<E as View>::V>;

    open spec fn view(&self) -> CompilerError<<E as View>::V> {
        CompilerError { error: self.error@, span: self.span }
    }
}

impl<E> CompilerError<E> {
    pub fn new(error: E, span: Span) -> (r: Self)
        ensures
            r == (CompilerError { error, span }),
    {
        CompilerError { error, span }
    }
}

impl CompilerError<ParseError> {
    /// The error for a peeked token that cannot continue the construct at
    /// hand: a mismatch at that token's own span, or end-of-input at the
    /// span of the hypothetical end-of-input token.
    pub fn from_peeked_token(expected: Expected, peeked_token: Option<Token>, eof_span: Span) -> (r:
        Self)
        ensures
            r@ == match peeked_token {
                Some(token) => CompilerError {
                    error: SpecParseError::UnexpectedToken { expected, found: token@.kind },
                    span: token@.span,
                },
                None => CompilerError {
                    error: SpecParseError::UnexpectedEof { expected },
                    span: eof_span,
                },
            },
    {
        match peeked_token {
            Some(token) => CompilerError {
                error: ParseError::UnexpectedToken { expected, found: token.kind },
                span: token.span,
            },
            None => CompilerError { error: ParseError::UnexpectedEof { expected }, span: eof_span },
        }
    }
}

} // verus!
