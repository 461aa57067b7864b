use cfront::ast::Statement;
use cfront::error::{CompilerError, ParseError};
use cfront::lexer::Lexer;
use cfront::parser::Parser;

fn parse_break(input: &str) -> Result<Statement, CompilerError<ParseError>> {
    let lexer = Lexer::new(input.as_bytes().to_vec());
    let mut parser = Parser::new(lexer);
    parser.parse_break_statement()
}

#[test]
fn test_parse_break() {
    let result = parse_break("break;");
    assert!(result.is_ok());
}

#[test]
fn test_parse_break_error_missing_semicolon() {
    let result = parse_break("break");
    assert!(result.is_err());
}
