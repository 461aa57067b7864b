use cfront::ast::{DeclarationStmt, Expression, Type};
use cfront::error::{CompilerError, ParseError};
use cfront::lexer::Lexer;
use cfront::parser::Parser;

fn parse_declaration(input: &str) -> Result<DeclarationStmt, CompilerError<ParseError>> {
    let lexer = Lexer::new(input.as_bytes().to_vec());
    let mut parser = Parser::new(lexer);
    parser.parse_declaration_statement()
}

#[test]
fn test_parse_declaration_without_initializer() {
    let result = parse_declaration("int x;");
    assert!(result.is_ok());
    let stmt = result.unwrap();
    assert_eq!(stmt.var_type, Type::Int);
    assert_eq!(stmt.name, b"x".to_vec());
    assert!(stmt.initializer.is_none());
}

#[test]
fn test_parse_declaration_with_constant_initializer() {
    let result = parse_declaration("int x = 42;");
    assert!(result.is_ok());
    let stmt = result.unwrap();
    assert_eq!(stmt.var_type, Type::Int);
    assert_eq!(stmt.name, b"x".to_vec());
    assert!(matches!(stmt.initializer, Some(Expression::Constant(42))));
}

#[test]
fn test_parse_declaration_error_missing_semicolon() {
    let result = parse_declaration("int x");
    assert!(result.is_err());
}

#[test]
fn test_parse_declaration_error_missing_identifier() {
    let result = parse_declaration("int;");
    assert!(result.is_err());
}

#[test]
fn test_parse_declaration_error_missing_type() {
    let result = parse_declaration("x = 5;");
    assert!(result.is_err());
}

#[test]
fn test_parse_declaration_error_missing_expression_after_equal() {
    let result = parse_declaration("int x = ;");
    assert!(result.is_err());
}
