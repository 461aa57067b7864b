use cfront::ast::{Expression, Program, Statement, Type};
use cfront::error::{CompilerError, Expected, LexError, ParseError};
use cfront::lexer::Lexer;
use cfront::operator::{AssignOp, BinaryOp, UnaryOp};
use cfront::parser::Parser;

fn parse_source(input: &str) -> Result<Program, CompilerError<ParseError>> {
    let lexer = Lexer::new(input.as_bytes().to_vec());
    Parser::new(lexer).parse()
}

fn ident(name: &str) -> Expression {
    Expression::Identifier(name.as_bytes().to_vec())
}

fn binary(op: BinaryOp, a: Expression, b: Expression) -> Expression {
    Expression::Binary(op, Box::new(a), Box::new(b))
}

/// The single statement of a one-function program.
fn only_statement(input: &str) -> Statement {
    let program = parse_source(input).unwrap();
    assert_eq!(program.functions.len(), 1);
    let mut f = program.functions.into_iter().next().unwrap();
    assert_eq!(f.body.statements.len(), 1);
    f.body.statements.pop().unwrap()
}

#[test]
fn scenario_main_returns_zero() {
    let program = parse_source("int main(void) { return 0; }").unwrap();
    assert_eq!(program.functions.len(), 1);
    let f = &program.functions[0];
    assert_eq!(f.name, b"main".to_vec());
    assert_eq!(f.return_type, Type::Int);
    assert!(f.params.is_empty());
    assert_eq!(f.body.statements.len(), 1);
    match &f.body.statements[0] {
        Statement::Return(ret) => assert_eq!(ret.expr, Expression::Constant(0)),
        other => panic!("expected a return statement, got {:?}", other),
    }
}

#[test]
fn scenario_parenthesized_precedence() {
    let stmt = only_statement("int main(void) { return (a + b) * (c - d) / e; }");
    let expected = binary(
        BinaryOp::Divide,
        binary(
            BinaryOp::Multiply,
            binary(BinaryOp::Add, ident("a"), ident("b")),
            binary(BinaryOp::Subtract, ident("c"), ident("d")),
        ),
        ident("e"),
    );
    match stmt {
        Statement::Return(ret) => assert_eq!(ret.expr, expected),
        other => panic!("expected a return statement, got {:?}", other),
    }
}

#[test]
fn scenario_empty_input_names_what_was_expected() {
    let err = parse_source("").unwrap_err();
    match err.error {
        ParseError::UnexpectedEof { expected } => {
            assert_eq!(expected, Expected::FunctionOrDeclaration);
        },
        other => panic!("expected an end-of-input error, got {:?}", other),
    }
}

#[test]
fn scenario_missing_body_points_at_end_of_input() {
    let input = "int main(void)";
    let err = parse_source(input).unwrap_err();
    assert!(matches!(err.error, ParseError::UnexpectedEof { .. }));
    assert_eq!(err.span.start, input.len());
    assert_eq!(err.span.end, input.len());
}

#[test]
fn scenario_no_void_marker_empty_params() {
    let program = parse_source("int f() { x; }").unwrap();
    assert!(program.functions[0].params.is_empty());
}

#[test]
fn multiplication_binds_tighter_than_addition() {
    let stmt = only_statement("int main(void) { return a + b * c; }");
    let expected = binary(
        BinaryOp::Add,
        ident("a"),
        binary(BinaryOp::Multiply, ident("b"), ident("c")),
    );
    match stmt {
        Statement::Return(ret) => assert_eq!(ret.expr, expected),
        other => panic!("expected a return statement, got {:?}", other),
    }
}

#[test]
fn equal_precedence_associates_left() {
    let stmt = only_statement("int main(void) { return a - b - c; }");
    let expected = binary(
        BinaryOp::Subtract,
        binary(BinaryOp::Subtract, ident("a"), ident("b")),
        ident("c"),
    );
    match stmt {
        Statement::Return(ret) => assert_eq!(ret.expr, expected),
        other => panic!("expected a return statement, got {:?}", other),
    }
}

#[test]
fn assignment_associates_right() {
    let stmt = only_statement("int main(void) { a = b = c; }");
    let expected = Expression::Assign(
        AssignOp::Assign,
        Box::new(ident("a")),
        Box::new(Expression::Assign(
            AssignOp::Assign,
            Box::new(ident("b")),
            Box::new(ident("c")),
        )),
    );
    match stmt {
        Statement::Expr(e) => assert_eq!(e.expr, expected),
        other => panic!("expected an expression statement, got {:?}", other),
    }
}

#[test]
fn compound_assignment_operators_parse() {
    let stmt = only_statement("int main(void) { a <<= b; }");
    match stmt {
        Statement::Expr(e) => match e.expr {
            Expression::Assign(op, _, _) => assert_eq!(op, AssignOp::LShiftAssign),
            other => panic!("expected an assignment, got {:?}", other),
        },
        other => panic!("expected an expression statement, got {:?}", other),
    }
}

#[test]
fn unary_binds_tighter_than_binary() {
    let stmt = only_statement("int main(void) { return -a * b; }");
    let expected = binary(
        BinaryOp::Multiply,
        Expression::Unary(UnaryOp::Negate, Box::new(ident("a"))),
        ident("b"),
    );
    match stmt {
        Statement::Return(ret) => assert_eq!(ret.expr, expected),
        other => panic!("expected a return statement, got {:?}", other),
    }
}

#[test]
fn postfix_forms_parse() {
    let stmt = only_statement("int main(void) { f(a, b + c)[i].field; }");
    let expected = Expression::Member(
        Box::new(Expression::Subscript(
            Box::new(Expression::Call(
                Box::new(ident("f")),
                vec![ident("a"), binary(BinaryOp::Add, ident("b"), ident("c"))],
            )),
            Box::new(ident("i")),
        )),
        b"field".to_vec(),
    );
    match stmt {
        Statement::Expr(e) => assert_eq!(e.expr, expected),
        other => panic!("expected an expression statement, got {:?}", other),
    }
}

#[test]
fn call_without_arguments_parses() {
    let stmt = only_statement("int main(void) { f(); }");
    match stmt {
        Statement::Expr(e) => match e.expr {
            Expression::Call(_, args) => assert!(args.is_empty()),
            other => panic!("expected a call, got {:?}", other),
        },
        other => panic!("expected an expression statement, got {:?}", other),
    }
}

#[test]
fn if_else_structure() {
    let stmt = only_statement("int main(void) { if (a < b) return 1; else return 0; }");
    match stmt {
        Statement::If(i) => {
            assert_eq!(i.cond, binary(BinaryOp::LessThan, ident("a"), ident("b")));
            assert!(matches!(*i.then_block, Statement::Return(_)));
            assert!(i.else_block.is_some());
        },
        other => panic!("expected an if statement, got {:?}", other),
    }
}

#[test]
fn do_while_structure() {
    let stmt = only_statement("int main(void) { do x; while (a); }");
    match stmt {
        Statement::DoWhile(w) => {
            assert_eq!(w.cond, ident("a"));
            assert!(matches!(*w.body, Statement::Expr(_)));
        },
        other => panic!("expected a do-while statement, got {:?}", other),
    }
}

#[test]
fn for_clauses_may_be_empty() {
    let stmt = only_statement("int main(void) { for (i; ; i) x; }");
    match stmt {
        Statement::For(f) => {
            assert!(f.init.is_some());
            assert!(f.cond.is_none());
            assert!(f.post.is_some());
        },
        other => panic!("expected a for statement, got {:?}", other),
    }
}

#[test]
fn declaration_statement_inside_function() {
    let stmt = only_statement("int main(void) { int x = 1 + 2; }");
    match stmt {
        Statement::Declaration(d) => {
            assert_eq!(d.var_type, Type::Int);
            assert_eq!(d.name, b"x".to_vec());
            assert!(d.initializer.is_some());
        },
        other => panic!("expected a declaration, got {:?}", other),
    }
}

#[test]
fn trailing_comma_in_parameters_is_tolerated() {
    let program = parse_source("int f(int a, int b,) { return 0; }").unwrap();
    let f = &program.functions[0];
    assert_eq!(f.params.len(), 2);
    assert_eq!(f.params[0], (Type::Int, b"a".to_vec()));
    assert_eq!(f.params[1], (Type::Int, b"b".to_vec()));
}

#[test]
fn lex_error_surfaces_through_the_parser() {
    let err = parse_source("int main(void) { return 99999999999; }").unwrap_err();
    assert!(matches!(err.error, ParseError::LexError(LexError::MalformedNumber)));
}

#[test]
fn unexpected_token_reports_expected_and_found() {
    let err = parse_source("int main(void);").unwrap_err();
    match err.error {
        ParseError::UnexpectedToken { expected, .. } => {
            assert_eq!(
                expected,
                Expected::Token(cfront::token::StaticToken::LBrace)
            );
        },
        other => panic!("expected a token mismatch, got {:?}", other),
    }
    // the error points at the offending `;`
    assert_eq!(err.span.start, 14);
}

#[test]
fn expression_error_is_reported_as_expected_statement() {
    let err = parse_source("int main(void) { + ; }").unwrap_err();
    match err.error {
        ParseError::UnexpectedToken { expected, .. } => {
            assert_eq!(expected, Expected::Statement);
        },
        other => panic!("expected a statement error, got {:?}", other),
    }
}

#[test]
fn structural_equality_of_equivalent_parses() {
    // the same program text, differently spaced and commented, yields a
    // structurally identical tree
    let a = parse_source("int main(void) { return a + b * c; }").unwrap();
    let b = parse_source("int main(void){return a+b*c;} // done").unwrap();
    assert_eq!(a, b);
}

#[test]
fn statement_constructors_build_the_same_trees() {
    let built = Statement::return_stmt(Expression::Constant(0));
    let parsed = only_statement("int main(void) { return 0; }");
    assert_eq!(built, parsed);
    let wrapped = Statement::block_stmt(vec![Statement::Null]);
    assert_eq!(wrapped, Statement::block_stmt(vec![Statement::Null]));
    let cond = Statement::if_stmt(ident("a"), Statement::Null, None);
    assert!(matches!(cond, Statement::If(_)));
}
