use cfront::error::{CompilerError, LexError};
use cfront::lexer::Lexer;
use cfront::token::{Span, StaticToken, Token, TokenType};

fn lex_all(input: &str) -> Result<Vec<Token>, CompilerError<LexError>> {
    let mut lexer = Lexer::new(input.as_bytes().to_vec());
    let mut out = Vec::new();
    loop {
        match lexer.next_token() {
            None => return Ok(out),
            Some(Ok(tok)) => out.push(tok),
            Some(Err(e)) => return Err(e),
        }
    }
}

fn kinds(input: &str) -> Vec<TokenType> {
    lex_all(input).unwrap().into_iter().map(|t| t.kind).collect()
}

#[test]
fn lex_keywords_and_identifiers() {
    let ks = kinds("int x while whilst returned return");
    assert_eq!(
        ks,
        vec![
            TokenType::Static(StaticToken::Int),
            TokenType::Identifier(b"x".to_vec()),
            TokenType::Static(StaticToken::While),
            TokenType::Identifier(b"whilst".to_vec()),
            TokenType::Identifier(b"returned".to_vec()),
            TokenType::Static(StaticToken::Return),
        ]
    );
}

#[test]
fn lex_maximal_munch_symbols() {
    // the longest spelling always wins: <<= over << over <
    let ks = kinds("<<= << <= < >>= >> >= > == = != ! ... . ## # -> -- -=");
    assert_eq!(
        ks,
        vec![
            TokenType::Static(StaticToken::LeftShiftEqual),
            TokenType::Static(StaticToken::LeftShift),
            TokenType::Static(StaticToken::LessThanOrEqual),
            TokenType::Static(StaticToken::LessThan),
            TokenType::Static(StaticToken::RightShiftEqual),
            TokenType::Static(StaticToken::RightShift),
            TokenType::Static(StaticToken::GreaterThanOrEqual),
            TokenType::Static(StaticToken::GreaterThan),
            TokenType::Static(StaticToken::EqualEqual),
            TokenType::Static(StaticToken::Equal),
            TokenType::Static(StaticToken::NotEqual),
            TokenType::Static(StaticToken::Not),
            TokenType::Static(StaticToken::Ellipsis),
            TokenType::Static(StaticToken::Dot),
            TokenType::Static(StaticToken::DoubleHash),
            TokenType::Static(StaticToken::Hash),
            TokenType::Static(StaticToken::Arrow),
            TokenType::Static(StaticToken::MinusMinus),
            TokenType::Static(StaticToken::MinusEqual),
        ]
    );
}

#[test]
fn lex_adjacent_maximal_munch() {
    // without spaces, munching is greedy left to right
    let ks = kinds("a<<=b");
    assert_eq!(
        ks,
        vec![
            TokenType::Identifier(b"a".to_vec()),
            TokenType::Static(StaticToken::LeftShiftEqual),
            TokenType::Identifier(b"b".to_vec()),
        ]
    );
}

#[test]
fn lex_constants() {
    let ks = kinds("0 42 007 2147483647");
    assert_eq!(
        ks,
        vec![
            TokenType::Constant(0),
            TokenType::Constant(42),
            TokenType::Constant(7),
            TokenType::Constant(2147483647),
        ]
    );
}

#[test]
fn lex_constant_overflow_is_malformed() {
    let result = lex_all("2147483648");
    let err = result.unwrap_err();
    assert_eq!(err.error, LexError::MalformedNumber);
    assert_eq!(err.span.start, 0);
    assert_eq!(err.span.end, 10);
}

#[test]
fn lex_unrecognized_character() {
    let result = lex_all("int a @ b");
    let err = result.unwrap_err();
    assert_eq!(err.error, LexError::UnrecognizedCharacter);
    assert_eq!(err.span.start, 6);
    assert_eq!(err.span.end, 7);
}

#[test]
fn lex_comments_are_skipped() {
    let ks = kinds("int // rest of line ignored\n x /* block\n comment */ = 1;");
    assert_eq!(
        ks,
        vec![
            TokenType::Static(StaticToken::Int),
            TokenType::Identifier(b"x".to_vec()),
            TokenType::Static(StaticToken::Equal),
            TokenType::Constant(1),
            TokenType::Static(StaticToken::Semicolon),
        ]
    );
}

#[test]
fn lex_unterminated_block_comment() {
    let input = "int x /* never closed";
    let result = lex_all(input);
    let err = result.unwrap_err();
    assert_eq!(err.error, LexError::UnterminatedComment);
    // the span points at the opening `/*` and runs to the end of input
    assert_eq!(err.span.start, 6);
    assert_eq!(err.span.end, input.len());
}

#[test]
fn lex_spans_select_token_text() {
    // round trip: the source substring under each span is the token's text
    let input = "int  main(void) { return 042; }";
    let tokens = lex_all(input).unwrap();
    let texts: Vec<&str> = tokens.iter().map(|t| &input[t.span.start..t.span.end]).collect();
    assert_eq!(
        texts,
        vec!["int", "main", "(", "void", ")", "{", "return", "042", ";", "}"]
    );
    // spans are ordered and non-overlapping
    for w in tokens.windows(2) {
        assert!(w[0].span.end <= w[1].span.start);
    }
}

#[test]
fn lex_line_and_column_tracking() {
    let tokens = lex_all("int\n  x = 1;\ny").unwrap();
    // `int` at line 1 column 1
    assert_eq!((tokens[0].span.line, tokens[0].span.column), (1, 1));
    // `x` at line 2 column 3
    assert_eq!((tokens[1].span.line, tokens[1].span.column), (2, 3));
    // `y` at line 3 column 1
    assert_eq!((tokens[5].span.line, tokens[5].span.column), (3, 1));
}

#[test]
fn lex_eof_span_is_at_end() {
    let lexer = Lexer::new(b"int x;\nint".to_vec());
    let span = lexer.eof_span();
    assert_eq!(span.start, 10);
    assert_eq!(span.end, 10);
    assert_eq!(span.line, 2);
    assert_eq!(span.column, 4);
}

#[test]
fn token_equality_ignores_span() {
    let a = Token::new(TokenType::Static(StaticToken::Semicolon), Span::new(0, 1, 1, 1));
    let b = Token::new(TokenType::Static(StaticToken::Semicolon), Span::new(7, 8, 2, 3));
    let c = Token::new(TokenType::Static(StaticToken::Comma), Span::new(0, 1, 1, 1));
    assert!(a == b);
    assert!(a != c);
}

#[test]
fn static_token_spelling_and_length() {
    assert_eq!(StaticToken::LeftShiftEqual.as_str(), "<<=");
    assert_eq!(StaticToken::Return.as_str(), "return");
    assert_eq!(StaticToken::Ellipsis.as_str(), "...");
    assert_eq!(TokenType::Static(StaticToken::LeftShiftEqual).ascii_length(), 3);
    assert_eq!(TokenType::Static(StaticToken::Continue).ascii_length(), 8);
    assert_eq!(TokenType::Identifier(b"counter".to_vec()).ascii_length(), 7);
    assert_eq!(TokenType::Constant(0).ascii_length(), 1);
    assert_eq!(TokenType::Constant(42).ascii_length(), 2);
    assert_eq!(TokenType::Constant(2147483647).ascii_length(), 10);
    assert_eq!(TokenType::Constant(-5).ascii_length(), 2);
    assert_eq!(TokenType::Constant(-2147483648).ascii_length(), 11);
}

#[test]
fn identifier_constructor() {
    let t = TokenType::identifier(b"abc".to_vec());
    assert_eq!(t, TokenType::Identifier(b"abc".to_vec()));
}
