use cfront::ast::{Program, Type};
use cfront::error::{CompilerError, ParseError};
use cfront::lexer::Lexer;
use cfront::parser::Parser;

fn parse_program(input: &str) -> Result<Program, CompilerError<ParseError>> {
    let lexer = Lexer::new(input.as_bytes().to_vec());
    Parser::new(lexer).parse()
}

// === Integration Tests: Smoke Tests ===

#[test]
fn test_parse_simple_function() {
    let input = "int main(void) { return 0; }";
    let result = parse_program(input);
    assert!(result.is_ok());
    let program = result.unwrap();
    assert_eq!(program.functions.len(), 1);
    assert_eq!(program.functions[0].return_type, Type::Int);
    assert_eq!(program.functions[0].name, b"main".to_vec());
    assert_eq!(program.functions[0].body.statements.len(), 1);
}

#[test]
fn test_parse_multiple_functions() {
    let input = r#"
        int foo(void) { return 1; }
        int bar(void) { return 2; }
        void baz() { return 0; }
    "#;
    let result = parse_program(input);
    assert!(result.is_ok());
    let program = result.unwrap();
    assert_eq!(program.functions.len(), 3);
    assert_eq!(program.functions[0].name, b"foo".to_vec());
    assert_eq!(program.functions[0].return_type, Type::Int);
    assert_eq!(program.functions[1].name, b"bar".to_vec());
    assert_eq!(program.functions[1].return_type, Type::Int);
    assert_eq!(program.functions[2].name, b"baz".to_vec());
    assert_eq!(program.functions[2].return_type, Type::Void);
}

// === Integration Tests: Feature Integration ===

#[test]
fn test_parse_nested_control_flow() {
    let input = r#"
        int main(void) {
            if (x > 0) {
                while (y < 10) {
                    for (i; i < 5; i) {
                        x;
                    }
                }
            }
            return 0;
        }
    "#;
    let result = parse_program(input);
    assert!(result.is_ok());
    let program = result.unwrap();
    assert_eq!(program.functions[0].body.statements.len(), 2);
}

#[test]
fn test_parse_complex_expression_in_statement() {
    let input = "int main(void) { return (a + b) * (c - d) / e; }";
    let result = parse_program(input);
    assert!(result.is_ok());
}

#[test]
fn test_parse_multiple_statements_in_block() {
    let input = r#"
        int main(void) {
            x;
            y;
            z;
            return 0;
        }
    "#;
    let result = parse_program(input);
    assert!(result.is_ok());
    let program = result.unwrap();
    assert_eq!(program.functions[0].body.statements.len(), 4);
}

#[test]
fn test_parse_all_statement_types() {
    let input = r#"
        int main(void) {
            if (1) { x; }
            while (1) { x; }
            do { x; } while (1);
            for (;;) { x; }
            break;
            continue;
            return 0;
        }
    "#;
    let result = parse_program(input);
    assert!(result.is_ok());
    let program = result.unwrap();
    assert_eq!(program.functions[0].body.statements.len(), 7);
}

#[test]
fn test_parse_deeply_nested_blocks() {
    let input = r#"
        int main(void) {
            {
                {
                    {
                        return 0;
                    }
                }
            }
        }
    "#;
    let result = parse_program(input);
    assert!(result.is_ok());
}

// === Integration Tests: Critical Error Cases ===

#[test]
fn test_error_empty_input() {
    let input = "";
    let result = parse_program(input);
    assert!(result.is_err());
    let err = result.unwrap_err();
    assert!(matches!(err.error, ParseError::UnexpectedEof { .. }));
}

#[test]
fn test_error_incomplete_function() {
    let input = "int main(void)";
    let result = parse_program(input);
    assert!(result.is_err());
}

#[test]
fn test_error_no_function_definition() {
    let input = "return 0;";
    let result = parse_program(input);
    assert!(result.is_err());
}

#[test]
fn test_error_missing_function_body() {
    let input = "int main(void);";
    let result = parse_program(input);
    assert!(result.is_err());
}

// === Edge Cases ===

#[test]
fn test_parse_minimal_valid_program() {
    let input = "int f() { x; }";
    let result = parse_program(input);
    assert!(result.is_ok());
}

#[test]
fn test_parse_with_excessive_whitespace() {
    let input = "int   main  (  void  )  {  return   0  ;  }";
    let result = parse_program(input);
    assert!(result.is_ok());
    let program = result.unwrap();
    assert_eq!(program.functions[0].return_type, Type::Int);
}

#[test]
fn test_parse_empty_block() {
    let input = "int main(void) { }";
    let result = parse_program(input);
    assert!(result.is_ok());
    let program = result.unwrap();
    assert_eq!(program.functions[0].body.statements.len(), 0);
}
