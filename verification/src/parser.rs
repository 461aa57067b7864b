//! The parser: recursive descent with one-token lookahead for program,
//! function and statement structure, and precedence climbing for
//! expressions.
//!
//! Every parsing step is mirrored by a specification function over the
//! token stream (a sequence of tokens, cut short at the first lexing
//! failure). Each executable method is proved to return exactly what its
//! specification function says and to leave exactly the specified rest of
//! the stream.

use vstd::prelude::*;

use crate::ast::{
    spec_type_from_token, stmt_view, stmts_view, Block, DeclarationStmt, DoWhileStmt, ExprStmt, Expression,
    ForStmt, FuncDef, IfStmt, Program, ReturnStmt, SpecExpr, SpecFuncDef, SpecProgram, SpecStmt,
    Statement, Type, WhileStmt,
};
use crate::error::{CompilerError, Expected, LexError, ParseError, SpecParseError};
use crate::lexer::{spec_eof_span, spec_next_token, spec_tokens, Lexer, SpecLexStep};
use crate::operator::{
    spec_assign_from_token, spec_binary_from_token, spec_binary_binding_power,
    spec_infer_binding_power, spec_lbp, spec_rbp, AssignOp, BinaryOp, BindingPower, UnaryOp,
};
use crate::token::{Span, SpecToken, SpecTokenType, StaticToken, Token, TokenType};

verus! {

/// One pulled item: the next token, or the lexing failure that cut the
/// stream short.
pub type LexItem = Result<Token, CompilerError<LexError>>;

/// The model of one pulled item.
pub type SpecLexItem = Result<SpecToken, CompilerError<LexError>>;

/// A parser failure with its span.
pub type SpecParseFail = CompilerError<SpecParseError>;

/// The model of a pulled item.
pub open spec fn item_view(item: LexItem) -> SpecLexItem {
    match item {
        Ok(t) => Ok(t@),
        Err(e) => Err(e),
    }
}

/// A lexing failure surfaced as a parser failure.
pub open spec fn lex_fail(e: CompilerError<LexError>) -> SpecParseFail {
    CompilerError { error: SpecParseError::LexError(e.error), span: e.span }
}

/// The failure for a required item that never came.
pub open spec fn eof_fail(expected: Expected, eof: Span) -> SpecParseFail {
    CompilerError { error: SpecParseError::UnexpectedEof { expected }, span: eof }
}

/// The failure for a required item when the given token stood there.
pub open spec fn token_fail(expected: Expected, t: SpecToken) -> SpecParseFail {
    CompilerError { error: SpecParseError::UnexpectedToken { expected, found: t.kind }, span: t.span }
}

/// The minimum binding power that `parse_expression` passes into precedence
/// climbing: the assignment class, the loosest operator class that still
/// belongs to a single expression.
pub const EXPR_MIN_BP: u8 = 2;

/// The right binding power of prefix unary operators.
pub const UNARY_RBP: u8 = 16;

/// Consuming one required static token.
pub open spec fn spec_expect(toks: Seq<SpecLexItem>, st: StaticToken, eof: Span) -> (Result<
    (),
    SpecParseFail,
>, Seq<SpecLexItem>) {
    if toks.len() == 0 {
        (Err(eof_fail(Expected::Token(st), eof)), toks)
    } else {
        match toks[0] {
            Err(e) => (Err(lex_fail(e)), toks.skip(1)),
            Ok(t) => if t.kind == SpecTokenType::Static(st) {
                (Ok(()), toks.skip(1))
            } else {
                (Err(token_fail(Expected::Token(st), t)), toks.skip(1))
            },
        }
    }
}

/// Consuming one static token if it is the next one: `true` exactly when it
/// was there. End of input is not an error here.
pub open spec fn spec_expect_optional(toks: Seq<SpecLexItem>, st: StaticToken, eof: Span) -> (
    Result<bool, SpecParseFail>,
    Seq<SpecLexItem>,
) {
    if toks.len() == 0 {
        (Ok(false), toks)
    } else {
        match toks[0] {
            Err(e) => (Err(lex_fail(e)), toks.skip(1)),
            Ok(t) => if t.kind == SpecTokenType::Static(st) {
                (Ok(true), toks.skip(1))
            } else {
                (Ok(false), toks)
            },
        }
    }
}

/// Consuming one required identifier token, yielding its text.
pub open spec fn spec_expect_identifier(toks: Seq<SpecLexItem>, eof: Span) -> (Result<
    Seq<u8>,
    SpecParseFail,
>, Seq<SpecLexItem>) {
    if toks.len() == 0 {
        (Err(eof_fail(Expected::Identifier, eof)), toks)
    } else {
        match toks[0] {
            Err(e) => (Err(lex_fail(e)), toks.skip(1)),
            Ok(t) => match t.kind {
                SpecTokenType::Identifier(name) => (Ok(name), toks.skip(1)),
                _ => (Err(token_fail(Expected::Identifier, t)), toks.skip(1)),
            },
        }
    }
}

/// Consuming one required type keyword.
pub open spec fn spec_expect_type(toks: Seq<SpecLexItem>, eof: Span) -> (Result<
    Type,
    SpecParseFail,
>, Seq<SpecLexItem>) {
    if toks.len() == 0 {
        (Err(eof_fail(Expected::Type, eof)), toks)
    } else {
        match toks[0] {
            Err(e) => (Err(lex_fail(e)), toks.skip(1)),
            Ok(t) => match spec_type_from_token(t.kind) {
                Some(ty) => (Ok(ty), toks.skip(1)),
                None => (Err(token_fail(Expected::Type, t)), toks.skip(1)),
            },
        }
    }
}

/// Consuming a type keyword followed by an identifier.
pub open spec fn spec_parse_typed_identifier(toks: Seq<SpecLexItem>, eof: Span) -> (Result<
    (Type, Seq<u8>),
    SpecParseFail,
>, Seq<SpecLexItem>) {
    let (r1, rest1) = spec_expect_type(toks, eof);
    match r1 {
        Err(e) => (Err(e), rest1),
        Ok(ty) => {
            let (r2, rest2) = spec_expect_identifier(rest1, eof);
            match r2 {
                Err(e) => (Err(e), rest2),
                Ok(name) => (Ok((ty, name)), rest2),
            }
        },
    }
}

/// A primary expression: a constant, an identifier, a parenthesized
/// expression, or a prefix unary operator applied to a tightly bound
/// operand.
pub open spec fn spec_parse_primary(toks: Seq<SpecLexItem>, eof: Span) -> (Result<
    SpecExpr,
    SpecParseFail,
>, Seq<SpecLexItem>)
    decreases toks.len(), 0int,
{
    if toks.len() == 0 {
        (Err(eof_fail(Expected::Expression, eof)), toks)
    } else {
        match toks[0] {
            Err(e) => (Err(lex_fail(e)), toks.skip(1)),
            Ok(t) => match t.kind {
                SpecTokenType::Constant(n) => (Ok(SpecExpr::Constant(n)), toks.skip(1)),
                SpecTokenType::Identifier(name) => (Ok(SpecExpr::Identifier(name)), toks.skip(1)),
                SpecTokenType::Static(StaticToken::LParen) => {
                    let (r, rest) = spec_parse_expression(toks.skip(1), eof);
                    match r {
                        Err(e) => (Err(e), rest),
                        Ok(inner) => {
                            let (r2, rest2) = spec_expect(rest, StaticToken::RParen, eof);
                            match r2 {
                                Err(e) => (Err(e), rest2),
                                Ok(_) => (Ok(inner), rest2),
                            }
                        },
                    }
                },
                SpecTokenType::Static(StaticToken::Minus) => {
                    let (r, rest) = spec_parse_expr_bp(toks.skip(1), UNARY_RBP, eof);
                    match r {
                        Err(e) => (Err(e), rest),
                        Ok(operand) => (
                            Ok(SpecExpr::Unary(UnaryOp::Negate, Box::new(operand))),
                            rest,
                        ),
                    }
                },
                SpecTokenType::Static(StaticToken::Not) => {
                    let (r, rest) = spec_parse_expr_bp(toks.skip(1), UNARY_RBP, eof);
                    match r {
                        Err(e) => (Err(e), rest),
                        Ok(operand) => (Ok(SpecExpr::Unary(UnaryOp::Not, Box::new(operand))), rest),
                    }
                },
                _ => (Err(token_fail(Expected::Expression, t)), toks.skip(1)),
            },
        }
    }
}

/// The climbing step: after `lhs`, folds in every following operator whose
/// left binding power reaches `min_bp`, recursing into right-hand sides
/// with that operator's right binding power, and recognizing postfix call,
/// subscript and member access.
pub open spec fn spec_expr_tail(
    toks: Seq<SpecLexItem>,
    lhs: SpecExpr,
    min_bp: u8,
    eof: Span,
) -> (Result<SpecExpr, SpecParseFail>, Seq<SpecLexItem>)
    decreases toks.len(), 1int,
{
    if toks.len() == 0 {
        (Ok(lhs), toks)
    } else {
        match toks[0] {
            Err(e) => (Err(lex_fail(e)), toks.skip(1)),
            Ok(t) => {
                let bp = spec_infer_binding_power(t.kind);
                if spec_lbp(bp) < min_bp {
                    (Ok(lhs), toks)
                } else {
                    let after_op = toks.skip(1);
                    match spec_assign_from_token(t.kind) {
                        Some(op) => {
                            let (r, rest) = spec_parse_expr_bp(after_op, spec_rbp(bp), eof);
                            match r {
                                Err(e) => (Err(e), rest),
                                Ok(rhs) => if rest.len() < toks.len() {
                                    spec_expr_tail(
                                        rest,
                                        SpecExpr::Assign(op, Box::new(lhs), Box::new(rhs)),
                                        min_bp,
                                        eof,
                                    )
                                } else {
                                    arbitrary()
                                },
                            }
                        },
                        None => match spec_binary_from_token(t.kind) {
                            Some(op) => {
                                let (r, rest) = spec_parse_expr_bp(after_op, spec_rbp(bp), eof);
                                match r {
                                    Err(e) => (Err(e), rest),
                                    Ok(rhs) => if rest.len() < toks.len() {
                                        spec_expr_tail(
                                            rest,
                                            SpecExpr::Binary(op, Box::new(lhs), Box::new(rhs)),
                                            min_bp,
                                            eof,
                                        )
                                    } else {
                                        arbitrary()
                                    },
                                }
                            },
                            None => match t.kind {
                                SpecTokenType::Static(StaticToken::LParen) => {
                                    let (r, rest) = spec_call_args(after_op, eof);
                                    match r {
                                        Err(e) => (Err(e), rest),
                                        Ok(args) => if rest.len() < toks.len() {
                                            spec_expr_tail(
                                                rest,
                                                SpecExpr::Call(Box::new(lhs), args),
                                                min_bp,
                                                eof,
                                            )
                                        } else {
                                            arbitrary()
                                        },
                                    }
                                },
                                SpecTokenType::Static(StaticToken::LBracket) => {
                                    let (r, rest) = spec_parse_expression(after_op, eof);
                                    match r {
                                        Err(e) => (Err(e), rest),
                                        Ok(idx) => {
                                            let (r2, rest2) = spec_expect(
                                                rest,
                                                StaticToken::RBracket,
                                                eof,
                                            );
                                            match r2 {
                                                Err(e) => (Err(e), rest2),
                                                Ok(_) => if rest2.len() < toks.len() {
                                                    spec_expr_tail(
                                                        rest2,
                                                        SpecExpr::Subscript(
                                                            Box::new(lhs),
                                                            Box::new(idx),
                                                        ),
                                                        min_bp,
                                                        eof,
                                                    )
                                                } else {
                                                    arbitrary()
                                                },
                                            }
                                        },
                                    }
                                },
                                SpecTokenType::Static(StaticToken::Dot) => {
                                    let (r, rest) = spec_expect_identifier(after_op, eof);
                                    match r {
                                        Err(e) => (Err(e), rest),
                                        Ok(name) => if rest.len() < toks.len() {
                                            spec_expr_tail(
                                                rest,
                                                SpecExpr::Member(Box::new(lhs), name),
                                                min_bp,
                                                eof,
                                            )
                                        } else {
                                            arbitrary()
                                        },
                                    }
                                },
                                _ => (Ok(lhs), toks),
                            },
                        },
                    }
                }
            },
        }
    }
}

/// A full expression parse at the given minimum binding power: a primary
/// expression, then the climbing step.
pub open spec fn spec_parse_expr_bp(toks: Seq<SpecLexItem>, min_bp: u8, eof: Span) -> (Result<
    SpecExpr,
    SpecParseFail,
>, Seq<SpecLexItem>)
    decreases toks.len(), 2int,
{
    let (r, rest) = spec_parse_primary(toks, eof);
    match r {
        Err(e) => (Err(e), rest),
        Ok(lhs) => if rest.len() < toks.len() {
            spec_expr_tail(rest, lhs, min_bp, eof)
        } else {
            arbitrary()
        },
    }
}

/// A full expression: precedence climbing from the assignment class up.
/// The comma operator does not belong to an expression.
pub open spec fn spec_parse_expression(toks: Seq<SpecLexItem>, eof: Span) -> (Result<
    SpecExpr,
    SpecParseFail,
>, Seq<SpecLexItem>)
    decreases toks.len(), 3int,
{
    spec_parse_expr_bp(toks, EXPR_MIN_BP as u8, eof)
}

/// The arguments of a call, after its `(`: empty if `)` follows at once,
/// otherwise comma-separated expressions up to the closing `)`.
pub open spec fn spec_call_args(toks: Seq<SpecLexItem>, eof: Span) -> (Result<
    Seq<SpecExpr>,
    SpecParseFail,
>, Seq<SpecLexItem>)
    decreases toks.len(), 4int,
{
    let (rb, rest) = spec_expect_optional(toks, StaticToken::RParen, eof);
    match rb {
        Err(e) => (Err(e), rest),
        Ok(true) => (Ok(Seq::empty()), rest),
        Ok(false) => {
            let (r, rest1) = spec_parse_expression(toks, eof);
            match r {
                Err(e) => (Err(e), rest1),
                Ok(first) => if rest1.len() < toks.len() {
                    spec_args_tail(rest1, seq![first], eof)
                } else {
                    arbitrary()
                },
            }
        },
    }
}

/// `break ;`
pub open spec fn spec_parse_break(toks: Seq<SpecLexItem>, eof: Span) -> (Result<
    SpecStmt,
    SpecParseFail,
>, Seq<SpecLexItem>) {
    let (r1, rest1) = spec_expect(toks, StaticToken::Break, eof);
    match r1 {
        Err(e) => (Err(e), rest1),
        Ok(_) => {
            let (r2, rest2) = spec_expect(rest1, StaticToken::Semicolon, eof);
            match r2 {
                Err(e) => (Err(e), rest2),
                Ok(_) => (Ok(SpecStmt::Break), rest2),
            }
        },
    }
}

/// `continue ;`
pub open spec fn spec_parse_continue(toks: Seq<SpecLexItem>, eof: Span) -> (Result<
    SpecStmt,
    SpecParseFail,
>, Seq<SpecLexItem>) {
    let (r1, rest1) = spec_expect(toks, StaticToken::Continue, eof);
    match r1 {
        Err(e) => (Err(e), rest1),
        Ok(_) => {
            let (r2, rest2) = spec_expect(rest1, StaticToken::Semicolon, eof);
            match r2 {
                Err(e) => (Err(e), rest2),
                Ok(_) => (Ok(SpecStmt::Continue), rest2),
            }
        },
    }
}

/// The null statement: a bare `;`.
pub open spec fn spec_parse_null(toks: Seq<SpecLexItem>, eof: Span) -> (Result<
    SpecStmt,
    SpecParseFail,
>, Seq<SpecLexItem>) {
    let (r1, rest1) = spec_expect(toks, StaticToken::Semicolon, eof);
    match r1 {
        Err(e) => (Err(e), rest1),
        Ok(_) => (Ok(SpecStmt::Null), rest1),
    }
}

/// `return <expr> ;`
pub open spec fn spec_parse_return(toks: Seq<SpecLexItem>, eof: Span) -> (Result<
    SpecStmt,
    SpecParseFail,
>, Seq<SpecLexItem>)
    decreases toks.len(), 6int,
{
    let (r1, rest1) = spec_expect(toks, StaticToken::Return, eof);
    match r1 {
        Err(e) => (Err(e), rest1),
        Ok(_) => {
            let (r2, rest2) = spec_parse_expression(rest1, eof);
            match r2 {
                Err(e) => (Err(e), rest2),
                Ok(e) => {
                    let (r3, rest3) = spec_expect(rest2, StaticToken::Semicolon, eof);
                    match r3 {
                        Err(er) => (Err(er), rest3),
                        Ok(_) => (Ok(SpecStmt::Return(e)), rest3),
                    }
                },
            }
        },
    }
}

/// `<type> <name> [ = <expr> ] ;`
pub open spec fn spec_parse_declaration(toks: Seq<SpecLexItem>, eof: Span) -> (Result<
    SpecStmt,
    SpecParseFail,
>, Seq<SpecLexItem>)
    decreases toks.len(), 6int,
{
    let (r1, rest1) = spec_expect_type(toks, eof);
    match r1 {
        Err(e) => (Err(e), rest1),
        Ok(var_type) => {
            let (r2, rest2) = spec_expect_identifier(rest1, eof);
            match r2 {
                Err(e) => (Err(e), rest2),
                Ok(name) => {
                    let (rb, rest3) = spec_expect_optional(rest2, StaticToken::Equal, eof);
                    match rb {
                        Err(e) => (Err(e), rest3),
                        Ok(false) => {
                            let (r4, rest4) = spec_expect(rest3, StaticToken::Semicolon, eof);
                            match r4 {
                                Err(e) => (Err(e), rest4),
                                Ok(_) => (
                                    Ok(
                                        SpecStmt::Declaration {
                                            var_type,
                                            name,
                                            initializer: None,
                                        },
                                    ),
                                    rest4,
                                ),
                            }
                        },
                        Ok(true) => {
                            let (r4, rest4) = spec_parse_expression(rest3, eof);
                            match r4 {
                                Err(e) => (Err(e), rest4),
                                Ok(init) => {
                                    let (r5, rest5) = spec_expect(
                                        rest4,
                                        StaticToken::Semicolon,
                                        eof,
                                    );
                                    match r5 {
                                        Err(e) => (Err(e), rest5),
                                        Ok(_) => (
                                            Ok(
                                                SpecStmt::Declaration {
                                                    var_type,
                                                    name,
                                                    initializer: Some(init),
                                                },
                                            ),
                                            rest5,
                                        ),
                                    }
                                },
                            }
                        },
                    }
                },
            }
        },
    }
}

/// `if ( <cond> ) <then> [ else <else> ]`
pub open spec fn spec_parse_if(toks: Seq<SpecLexItem>, eof: Span) -> (Result<
    SpecStmt,
    SpecParseFail,
>, Seq<SpecLexItem>)
    decreases toks.len(), 6int,
{
    let (r1, rest1) = spec_expect(toks, StaticToken::If, eof);
    match r1 {
        Err(e) => (Err(e), rest1),
        Ok(_) => {
            let (r2, rest2) = spec_expect(rest1, StaticToken::LParen, eof);
            match r2 {
                Err(e) => (Err(e), rest2),
                Ok(_) => {
                    let (r3, rest3) = spec_parse_expression(rest2, eof);
                    match r3 {
                        Err(e) => (Err(e), rest3),
                        Ok(cond) => {
                            let (r4, rest4) = spec_expect(rest3, StaticToken::RParen, eof);
                            match r4 {
                                Err(e) => (Err(e), rest4),
                                Ok(_) => if rest4.len() < toks.len() {
                                    let (r5, rest5) = spec_parse_statement(rest4, eof);
                                    match r5 {
                                        Err(e) => (Err(e), rest5),
                                        Ok(then_block) => {
                                            let (rb, rest6) = spec_expect_optional(
                                                rest5,
                                                StaticToken::Else,
                                                eof,
                                            );
                                            match rb {
                                                Err(e) => (Err(e), rest6),
                                                Ok(false) => (
                                                    Ok(
                                                        SpecStmt::If {
                                                            cond,
                                                            then_block: Box::new(then_block),
                                                            else_block: None,
                                                        },
                                                    ),
                                                    rest6,
                                                ),
                                                Ok(true) => if rest6.len() < toks.len() {
                                                    let (r7, rest7) = spec_parse_statement(
                                                        rest6,
                                                        eof,
                                                    );
                                                    match r7 {
                                                        Err(e) => (Err(e), rest7),
                                                        Ok(else_stmt) => (
                                                            Ok(
                                                                SpecStmt::If {
                                                                    cond,
                                                                    then_block: Box::new(
                                                                        then_block,
                                                                    ),
                                                                    else_block: Some(
                                                                        Box::new(else_stmt),
                                                                    ),
                                                                },
                                                            ),
                                                            rest7,
                                                        ),
                                                    }
                                                } else {
                                                    arbitrary()
                                                },
                                            }
                                        },
                                    }
                                } else {
                                    arbitrary()
                                },
                            }
                        },
                    }
                },
            }
        },
    }
}

/// `while ( <cond> ) <body>`
pub open spec fn spec_parse_while(toks: Seq<SpecLexItem>, eof: Span) -> (Result<
    SpecStmt,
    SpecParseFail,
>, Seq<SpecLexItem>)
    decreases toks.len(), 6int,
{
    let (r1, rest1) = spec_expect(toks, StaticToken::While, eof);
    match r1 {
        Err(e) => (Err(e), rest1),
        Ok(_) => {
            let (r2, rest2) = spec_expect(rest1, StaticToken::LParen, eof);
            match r2 {
                Err(e) => (Err(e), rest2),
                Ok(_) => {
                    let (r3, rest3) = spec_parse_expression(rest2, eof);
                    match r3 {
                        Err(e) => (Err(e), rest3),
                        Ok(cond) => {
                            let (r4, rest4) = spec_expect(rest3, StaticToken::RParen, eof);
                            match r4 {
                                Err(e) => (Err(e), rest4),
                                Ok(_) => if rest4.len() < toks.len() {
                                    let (r5, rest5) = spec_parse_statement(rest4, eof);
                                    match r5 {
                                        Err(e) => (Err(e), rest5),
                                        Ok(body) => (
                                            Ok(
                                                SpecStmt::While { cond, body: Box::new(body) },
                                            ),
                                            rest5,
                                        ),
                                    }
                                } else {
                                    arbitrary()
                                },
                            }
                        },
                    }
                },
            }
        },
    }
}

/// `do <body> while ( <cond> ) ;`
pub open spec fn spec_parse_do_while(toks: Seq<SpecLexItem>, eof: Span) -> (Result<
    SpecStmt,
    SpecParseFail,
>, Seq<SpecLexItem>)
    decreases toks.len(), 6int,
{
    let (r1, rest1) = spec_expect(toks, StaticToken::Do, eof);
    match r1 {
        Err(e) => (Err(e), rest1),
        Ok(_) => {
            let (r2, rest2) = spec_parse_statement(rest1, eof);
            match r2 {
                Err(e) => (Err(e), rest2),
                Ok(body) => if rest2.len() < toks.len() {
                    let (r3, rest3) = spec_expect(rest2, StaticToken::While, eof);
                    match r3 {
                        Err(e) => (Err(e), rest3),
                        Ok(_) => {
                            let (r4, rest4) = spec_expect(rest3, StaticToken::LParen, eof);
                            match r4 {
                                Err(e) => (Err(e), rest4),
                                Ok(_) => {
                                    let (r5, rest5) = spec_parse_expression(rest4, eof);
                                    match r5 {
                                        Err(e) => (Err(e), rest5),
                                        Ok(cond) => {
                                            let (r6, rest6) = spec_expect(
                                                rest5,
                                                StaticToken::RParen,
                                                eof,
                                            );
                                            match r6 {
                                                Err(e) => (Err(e), rest6),
                                                Ok(_) => {
                                                    let (r7, rest7) = spec_expect(
                                                        rest6,
                                                        StaticToken::Semicolon,
                                                        eof,
                                                    );
                                                    match r7 {
                                                        Err(e) => (Err(e), rest7),
                                                        Ok(_) => (
                                                            Ok(
                                                                SpecStmt::DoWhile {
                                                                    cond,
                                                                    body: Box::new(body),
                                                                },
                                                            ),
                                                            rest7,
                                                        ),
                                                    }
                                                },
                                            }
                                        },
                                    }
                                },
                            }
                        },
                    }
                } else {
                    arbitrary()
                },
            }
        },
    }
}

/// One of the three optional clauses of a `for` header, ended by the given
/// token: `None` if the end token follows at once.
pub open spec fn spec_parse_opt_clause(toks: Seq<SpecLexItem>, end: StaticToken, eof: Span) -> (
    Result<Option<SpecExpr>, SpecParseFail>,
    Seq<SpecLexItem>,
)
    decreases toks.len(), 4int,
{
    let (rb, rest) = spec_expect_optional(toks, end, eof);
    match rb {
        Err(e) => (Err(e), rest),
        Ok(true) => (Ok(None), rest),
        Ok(false) => {
            let (r, rest1) = spec_parse_expression(toks, eof);
            match r {
                Err(e) => (Err(e), rest1),
                Ok(e) => {
                    let (r2, rest2) = spec_expect(rest1, end, eof);
                    match r2 {
                        Err(er) => (Err(er), rest2),
                        Ok(_) => (Ok(Some(e)), rest2),
                    }
                },
            }
        },
    }
}

/// `for ( [init] ; [cond] ; [post] ) <body>`
pub open spec fn spec_parse_for(toks: Seq<SpecLexItem>, eof: Span) -> (Result<
    SpecStmt,
    SpecParseFail,
>, Seq<SpecLexItem>)
    decreases toks.len(), 6int,
{
    let (r1, rest1) = spec_expect(toks, StaticToken::For, eof);
    match r1 {
        Err(e) => (Err(e), rest1),
        Ok(_) => {
            let (r2, rest2) = spec_expect(rest1, StaticToken::LParen, eof);
            match r2 {
                Err(e) => (Err(e), rest2),
                Ok(_) => {
                    let (r3, rest3) = spec_parse_opt_clause(rest2, StaticToken::Semicolon, eof);
                    match r3 {
                        Err(e) => (Err(e), rest3),
                        Ok(init) => if rest3.len() < toks.len() {
                            let (r4, rest4) = spec_parse_opt_clause(
                                rest3,
                                StaticToken::Semicolon,
                                eof,
                            );
                            match r4 {
                                Err(e) => (Err(e), rest4),
                                Ok(cond) => if rest4.len() < toks.len() {
                                    let (r5, rest5) = spec_parse_opt_clause(
                                        rest4,
                                        StaticToken::RParen,
                                        eof,
                                    );
                                    match r5 {
                                        Err(e) => (Err(e), rest5),
                                        Ok(post) => if rest5.len() < toks.len() {
                                            let (r6, rest6) = spec_parse_statement(rest5, eof);
                                            match r6 {
                                                Err(e) => (Err(e), rest6),
                                                Ok(body) => (
                                                    Ok(
                                                        SpecStmt::For {
                                                            init,
                                                            cond,
                                                            post,
                                                            body: Box::new(body),
                                                        },
                                                    ),
                                                    rest6,
                                                ),
                                            }
                                        } else {
                                            arbitrary()
                                        },
                                    }
                                } else {
                                    arbitrary()
                                },
                            }
                        } else {
                            arbitrary()
                        },
                    }
                },
            }
        },
    }
}

/// `{ <stmts> }` as a statement.
pub open spec fn spec_parse_block_stmt(toks: Seq<SpecLexItem>, eof: Span) -> (Result<
    Seq<SpecStmt>,
    SpecParseFail,
>, Seq<SpecLexItem>)
    decreases toks.len(), 6int,
{
    let (r1, rest1) = spec_expect(toks, StaticToken::LBrace, eof);
    match r1 {
        Err(e) => (Err(e), rest1),
        Ok(_) => spec_block_items(rest1, eof),
    }
}

/// The statements of a block, up to and including the closing `}`.
pub open spec fn spec_block_items(toks: Seq<SpecLexItem>, eof: Span) -> (Result<
    Seq<SpecStmt>,
    SpecParseFail,
>, Seq<SpecLexItem>)
    decreases toks.len(), 8int,
{
    let (rb, rest) = spec_expect_optional(toks, StaticToken::RBrace, eof);
    match rb {
        Err(e) => (Err(e), rest),
        Ok(true) => (Ok(Seq::empty()), rest),
        Ok(false) => {
            let (r, rest1) = spec_parse_statement(toks, eof);
            match r {
                Err(e) => (Err(e), rest1),
                Ok(s) => if rest1.len() < toks.len() {
                    let (r2, rest2) = spec_block_items(rest1, eof);
                    match r2 {
                        Err(e) => (Err(e), rest2),
                        Ok(ss) => (Ok(seq![s] + ss), rest2),
                    }
                } else {
                    arbitrary()
                },
            }
        },
    }
}

/// One statement, dispatched by the peeked token: keyword statements, the
/// null statement, a nested block, a declaration at a type keyword, and
/// otherwise an expression statement. A failure inside the expression is
/// reported as "expected a statement" at the peeked token's span.
pub open spec fn spec_parse_statement(toks: Seq<SpecLexItem>, eof: Span) -> (Result<
    SpecStmt,
    SpecParseFail,
>, Seq<SpecLexItem>)
    decreases toks.len(), 7int,
{
    if toks.len() == 0 {
        (Err(eof_fail(Expected::Statement, eof)), toks)
    } else {
        match toks[0] {
            Err(e) => (Err(lex_fail(e)), toks.skip(1)),
            Ok(t) => if t.kind == SpecTokenType::Static(StaticToken::Break) {
                spec_parse_break(toks, eof)
            } else if t.kind == SpecTokenType::Static(StaticToken::Continue) {
                spec_parse_continue(toks, eof)
            } else if t.kind == SpecTokenType::Static(StaticToken::Do) {
                spec_parse_do_while(toks, eof)
            } else if t.kind == SpecTokenType::Static(StaticToken::For) {
                spec_parse_for(toks, eof)
            } else if t.kind == SpecTokenType::Static(StaticToken::If) {
                spec_parse_if(toks, eof)
            } else if t.kind == SpecTokenType::Static(StaticToken::Return) {
                spec_parse_return(toks, eof)
            } else if t.kind == SpecTokenType::Static(StaticToken::While) {
                spec_parse_while(toks, eof)
            } else if t.kind == SpecTokenType::Static(StaticToken::Semicolon) {
                spec_parse_null(toks, eof)
            } else if t.kind == SpecTokenType::Static(StaticToken::LBrace) {
                let (r, rest) = spec_parse_block_stmt(toks, eof);
                match r {
                    Err(e) => (Err(e), rest),
                    Ok(ss) => (Ok(SpecStmt::Block(ss)), rest),
                }
            } else if spec_type_from_token(t.kind) is Some {
                spec_parse_declaration(toks, eof)
            } else {
                let (r, rest) = spec_parse_expression(toks, eof);
                match r {
                    Err(_) => (Err(token_fail(Expected::Statement, t)), rest),
                    Ok(e) => {
                        let (r2, rest2) = spec_expect(rest, StaticToken::Semicolon, eof);
                        match r2 {
                            Err(er) => (Err(er), rest2),
                            Ok(_) => (Ok(SpecStmt::Expr(e)), rest2),
                        }
                    },
                }
            },
        }
    }
}

/// The parameter list items after `(` and an optional `void` marker:
/// `<type> <identifier>` pairs, each followed by an optional comma, up to
/// and including the closing `)`. A trailing comma before `)` is tolerated,
/// a deliberate leniency of this grammar.
pub open spec fn spec_params_items(toks: Seq<SpecLexItem>, eof: Span) -> (Result<
    Seq<(Type, Seq<u8>)>,
    SpecParseFail,
>, Seq<SpecLexItem>)
    decreases toks.len(), 4int,
{
    let (rb, rest) = spec_expect_optional(toks, StaticToken::RParen, eof);
    match rb {
        Err(e) => (Err(e), rest),
        Ok(true) => (Ok(Seq::empty()), rest),
        Ok(false) => {
            let (r, rest1) = spec_parse_typed_identifier(toks, eof);
            match r {
                Err(e) => (Err(e), rest1),
                Ok(p) => {
                    let (rb2, rest2) = spec_expect_optional(rest1, StaticToken::Comma, eof);
                    match rb2 {
                        Err(e) => (Err(e), rest2),
                        Ok(_) => if rest2.len() < toks.len() {
                            let (r3, rest3) = spec_params_items(rest2, eof);
                            match r3 {
                                Err(e) => (Err(e), rest3),
                                Ok(ps) => (Ok(seq![p] + ps), rest3),
                            }
                        } else {
                            arbitrary()
                        },
                    }
                },
            }
        },
    }
}

/// A function's parameter list: `(`, an optional literal `void` marker for
/// "no parameters", then the parameter items.
pub open spec fn spec_parse_params(toks: Seq<SpecLexItem>, eof: Span) -> (Result<
    Seq<(Type, Seq<u8>)>,
    SpecParseFail,
>, Seq<SpecLexItem>)
    decreases toks.len(), 6int,
{
    let (r1, rest1) = spec_expect(toks, StaticToken::LParen, eof);
    match r1 {
        Err(e) => (Err(e), rest1),
        Ok(_) => {
            let (rb, rest2) = spec_expect_optional(rest1, StaticToken::Void, eof);
            match rb {
                Err(e) => (Err(e), rest2),
                Ok(_) => spec_params_items(rest2, eof),
            }
        },
    }
}

/// A function definition: `<type> <identifier> ( <params> ) { <stmts> }`.
pub open spec fn spec_parse_function(toks: Seq<SpecLexItem>, eof: Span) -> (Result<
    SpecFuncDef,
    SpecParseFail,
>, Seq<SpecLexItem>)
    decreases toks.len(), 9int,
{
    let (r1, rest1) = spec_parse_typed_identifier(toks, eof);
    match r1 {
        Err(e) => (Err(e), rest1),
        Ok(tn) => if rest1.len() < toks.len() {
            let (r2, rest2) = spec_parse_params(rest1, eof);
            match r2 {
                Err(e) => (Err(e), rest2),
                Ok(params) => if rest2.len() < toks.len() {
                    let (r3, rest3) = spec_parse_block_stmt(rest2, eof);
                    match r3 {
                        Err(e) => (Err(e), rest3),
                        Ok(body) => (
                            Ok(
                                SpecFuncDef {
                                    return_type: tn.0,
                                    name: tn.1,
                                    params,
                                    body,
                                },
                            ),
                            rest3,
                        ),
                    }
                } else {
                    arbitrary()
                },
            }
        } else {
            arbitrary()
        },
    }
}

/// All function definitions up to end of input.
pub open spec fn spec_program_items(toks: Seq<SpecLexItem>, eof: Span) -> (Result<
    Seq<SpecFuncDef>,
    SpecParseFail,
>, Seq<SpecLexItem>)
    decreases toks.len(), 10int,
{
    if toks.len() == 0 {
        (Ok(Seq::empty()), toks)
    } else {
        match toks[0] {
            Err(e) => (Err(lex_fail(e)), toks.skip(1)),
            Ok(_) => {
                let (r, rest) = spec_parse_function(toks, eof);
                match r {
                    Err(e) => (Err(e), rest),
                    Ok(f) => if rest.len() < toks.len() {
                        let (r2, rest2) = spec_program_items(rest, eof);
                        match r2 {
                            Err(e) => (Err(e), rest2),
                            Ok(fs) => (Ok(seq![f] + fs), rest2),
                        }
                    } else {
                        arbitrary()
                    },
                }
            },
        }
    }
}

/// A complete program: every function definition until end of input; a
/// program without a single function definition is an error, not an empty
/// tree.
pub open spec fn spec_parse_program(toks: Seq<SpecLexItem>, eof: Span) -> Result<
    SpecProgram,
    SpecParseFail,
> {
    let (r, rest) = spec_program_items(toks, eof);
    match r {
        Err(e) => Err(e),
        Ok(fs) => if fs.len() == 0 {
            Err(eof_fail(Expected::FunctionOrDeclaration, eof))
        } else {
            Ok(SpecProgram { functions: fs })
        },
    }
}

/// The remaining arguments of a call: as long as a comma follows, one more
/// expression; then the closing `)`.
pub open spec fn spec_args_tail(toks: Seq<SpecLexItem>, acc: Seq<SpecExpr>, eof: Span) -> (Result<
    Seq<SpecExpr>,
    SpecParseFail,
>, Seq<SpecLexItem>)
    decreases toks.len(), 5int,
{
    let (rb, rest) = spec_expect_optional(toks, StaticToken::Comma, eof);
    match rb {
        Err(e) => (Err(e), rest),
        Ok(false) => {
            let (r2, rest2) = spec_expect(rest, StaticToken::RParen, eof);
            match r2 {
                Err(e) => (Err(e), rest2),
                Ok(_) => (Ok(acc), rest2),
            }
        },
        Ok(true) => {
            let (r, rest1) = spec_parse_expression(rest, eof);
            match r {
                Err(e) => (Err(e), rest1),
                Ok(next) => if rest1.len() < toks.len() {
                    spec_args_tail(rest1, acc.push(next), eof)
                } else {
                    arbitrary()
                },
            }
        },
    }
}

/// The model of a unit result.
pub open spec fn res_unit(r: Result<(), CompilerError<ParseError>>) -> Result<(), SpecParseFail> {
    match r {
        Ok(_) => Ok(()),
        Err(e) => Err(e@),
    }
}

/// The model of a boolean result.
pub open spec fn res_bool(r: Result<bool, CompilerError<ParseError>>) -> Result<
    bool,
    SpecParseFail,
> {
    match r {
        Ok(b) => Ok(b),
        Err(e) => Err(e@),
    }
}

/// The model of an identifier-text result.
pub open spec fn res_ident(r: Result<Vec<u8>, CompilerError<ParseError>>) -> Result<
    Seq<u8>,
    SpecParseFail,
> {
    match r {
        Ok(v) => Ok(v@),
        Err(e) => Err(e@),
    }
}

/// The model of a type result.
pub open spec fn res_type(r: Result<Type, CompilerError<ParseError>>) -> Result<
    Type,
    SpecParseFail,
> {
    match r {
        Ok(t) => Ok(t),
        Err(e) => Err(e@),
    }
}

/// The model of a typed-identifier result.
pub open spec fn res_typed_ident(r: Result<(Type, Vec<u8>), CompilerError<ParseError>>) -> Result<
    (Type, Seq<u8>),
    SpecParseFail,
> {
    match r {
        Ok(p) => Ok((p.0, p.1@)),
        Err(e) => Err(e@),
    }
}

/// The model of an expression result.
pub open spec fn res_expr(r: Result<Expression, CompilerError<ParseError>>) -> Result<
    SpecExpr,
    SpecParseFail,
> {
    match r {
        Ok(e) => Ok(e@),
        Err(e) => Err(e@),
    }
}

/// The model of a statement result.
pub open spec fn res_stmt(r: Result<Statement, CompilerError<ParseError>>) -> Result<
    SpecStmt,
    SpecParseFail,
> {
    match r {
        Ok(s) => Ok(s@),
        Err(e) => Err(e@),
    }
}

/// The model of a declaration result.
pub open spec fn res_decl(r: Result<DeclarationStmt, CompilerError<ParseError>>) -> Result<
    SpecStmt,
    SpecParseFail,
> {
    match r {
        Ok(d) => Ok(d@),
        Err(e) => Err(e@),
    }
}

/// The model of a block result.
pub open spec fn res_block(r: Result<Block, CompilerError<ParseError>>) -> Result<
    Seq<SpecStmt>,
    SpecParseFail,
> {
    match r {
        Ok(b) => Ok(b@),
        Err(e) => Err(e@),
    }
}

/// The model of an argument-list result.
pub open spec fn res_args(r: Result<Vec<Expression>, CompilerError<ParseError>>) -> Result<
    Seq<SpecExpr>,
    SpecParseFail,
> {
    match r {
        Ok(v) => Ok(crate::ast::exprs_view(v@)),
        Err(e) => Err(e@),
    }
}

/// The model of a parameter-list result.
pub open spec fn res_params(r: Result<Vec<(Type, Vec<u8>)>, CompilerError<ParseError>>) -> Result<
    Seq<(Type, Seq<u8>)>,
    SpecParseFail,
> {
    match r {
        Ok(v) => Ok(crate::ast::params_view(v@)),
        Err(e) => Err(e@),
    }
}

/// The model of a function-definition result.
pub open spec fn res_func(r: Result<FuncDef, CompilerError<ParseError>>) -> Result<
    SpecFuncDef,
    SpecParseFail,
> {
    match r {
        Ok(f) => Ok(f@),
        Err(e) => Err(e@),
    }
}

/// The model of a program result.
pub open spec fn res_prog(r: Result<Program, CompilerError<ParseError>>) -> Result<
    SpecProgram,
    SpecParseFail,
> {
    match r {
        Ok(p) => Ok(p@),
        Err(e) => Err(e@),
    }
}

/// The primary expression a single operand token parses to.
pub open spec fn atom_expr(k: SpecTokenType) -> SpecExpr {
    match k {
        SpecTokenType::Identifier(name) => SpecExpr::Identifier(name),
        SpecTokenType::Constant(n) => SpecExpr::Constant(n),
        SpecTokenType::Static(_) => arbitrary(),
    }
}

/// An operand token: an identifier or a constant.
pub open spec fn is_atom(k: SpecTokenType) -> bool {
    k is Identifier || k is Constant
}

/// A continuation boundary: the expression parse stops here. Either the
/// input ends, or the next token is no operator that binds into an
/// expression.
pub open spec fn stops_expression(rest: Seq<SpecLexItem>) -> bool {
    rest.len() == 0 || (rest[0] matches Ok(t) && spec_lbp(spec_infer_binding_power(t.kind))
        < EXPR_MIN_BP)
}

/// Equal left-associative precedence associates left: for any operand
/// tokens `a`, `b`, `c` and binary operator tokens `op1`, `op2` of the same
/// precedence class, `a op1 b op2 c` parses as `(a op1 b) op2 c`.
pub proof fn lemma_left_associative_chain(
    a: SpecToken,
    op1: SpecToken,
    b: SpecToken,
    op2: SpecToken,
    c: SpecToken,
    rest: Seq<SpecLexItem>,
    eof: Span,
)
    requires
        is_atom(a.kind),
        is_atom(b.kind),
        is_atom(c.kind),
        spec_binary_from_token(op1.kind) is Some,
        spec_binary_from_token(op2.kind) is Some,
        spec_binary_binding_power(spec_binary_from_token(op1.kind)->Some_0)
            == spec_binary_binding_power(spec_binary_from_token(op2.kind)->Some_0),
        stops_expression(rest),
    ensures
        spec_parse_expression(
            seq![Ok(a), Ok(op1), Ok(b), Ok(op2), Ok(c)] + rest,
            eof,
        ) == (
            Ok::<SpecExpr, SpecParseFail>(
                SpecExpr::Binary(
                    spec_binary_from_token(op2.kind)->Some_0,
                    Box::new(
                        SpecExpr::Binary(
                            spec_binary_from_token(op1.kind)->Some_0,
                            Box::new(atom_expr(a.kind)),
                            Box::new(atom_expr(b.kind)),
                        ),
                    ),
                    Box::new(atom_expr(c.kind)),
                ),
            ),
            rest,
        ),
{
    let toks = seq![Ok(a), Ok(op1), Ok(b), Ok(op2), Ok(c)] + rest;
    let t1 = seq![Ok(op1), Ok(b), Ok(op2), Ok(c)] + rest;
    let t2 = seq![Ok(b), Ok(op2), Ok(c)] + rest;
    let t3 = seq![Ok(op2), Ok(c)] + rest;
    let t4 = seq![Ok(c)] + rest;
    assert(toks.skip(1) =~= t1);
    assert(t1.skip(1) =~= t2);
    assert(t2.skip(1) =~= t3);
    assert(t3.skip(1) =~= t4);
    assert(t4.skip(1) =~= rest);
    let ea = atom_expr(a.kind);
    let eb = atom_expr(b.kind);
    let ec = atom_expr(c.kind);
    let o1 = spec_binary_from_token(op1.kind)->Some_0;
    let o2 = spec_binary_from_token(op2.kind)->Some_0;
    let bp = spec_binary_binding_power(o1);
    let l = spec_lbp(bp);
    let r = spec_rbp(bp);
    assert(spec_assign_from_token(op1.kind) is None);
    assert(spec_assign_from_token(op2.kind) is None);
    assert(l >= EXPR_MIN_BP && r == l + 1);
    assert(spec_parse_primary(toks, eof) == (Ok::<SpecExpr, SpecParseFail>(ea), t1));
    assert(spec_parse_primary(t2, eof) == (Ok::<SpecExpr, SpecParseFail>(eb), t3));
    assert(spec_parse_primary(t4, eof) == (Ok::<SpecExpr, SpecParseFail>(ec), rest));
    assert(spec_expr_tail(t3, eb, r, eof) == (Ok::<SpecExpr, SpecParseFail>(eb), t3));
    assert(spec_parse_expr_bp(t2, r, eof) == (Ok::<SpecExpr, SpecParseFail>(eb), t3));
    assert(spec_expr_tail(rest, ec, r, eof) == (Ok::<SpecExpr, SpecParseFail>(ec), rest));
    assert(spec_parse_expr_bp(t4, r, eof) == (Ok::<SpecExpr, SpecParseFail>(ec), rest));
    let fold1 = SpecExpr::Binary(o1, Box::new(ea), Box::new(eb));
    let fold2 = SpecExpr::Binary(o2, Box::new(fold1), Box::new(ec));
    assert(spec_expr_tail(rest, fold2, EXPR_MIN_BP as u8, eof) == (
        Ok::<SpecExpr, SpecParseFail>(fold2),
        rest,
    ));
    assert(spec_expr_tail(t3, fold1, EXPR_MIN_BP as u8, eof) == (
        Ok::<SpecExpr, SpecParseFail>(fold2),
        rest,
    ));
    assert(spec_expr_tail(t1, ea, EXPR_MIN_BP as u8, eof) == (
        Ok::<SpecExpr, SpecParseFail>(fold2),
        rest,
    ));
}

/// Assignment chains associate right: for any operand tokens `a`, `b`, `c`
/// and assignment operator tokens `op1`, `op2`, `a op1 b op2 c` parses as
/// `a op1 (b op2 c)`.
pub proof fn lemma_right_associative_chain(
    a: SpecToken,
    op1: SpecToken,
    b: SpecToken,
    op2: SpecToken,
    c: SpecToken,
    rest: Seq<SpecLexItem>,
    eof: Span,
)
    requires
        is_atom(a.kind),
        is_atom(b.kind),
        is_atom(c.kind),
        spec_assign_from_token(op1.kind) is Some,
        spec_assign_from_token(op2.kind) is Some,
        stops_expression(rest),
    ensures
        spec_parse_expression(
            seq![Ok(a), Ok(op1), Ok(b), Ok(op2), Ok(c)] + rest,
            eof,
        ) == (
            Ok::<SpecExpr, SpecParseFail>(
                SpecExpr::Assign(
                    spec_assign_from_token(op1.kind)->Some_0,
                    Box::new(atom_expr(a.kind)),
                    Box::new(
                        SpecExpr::Assign(
                            spec_assign_from_token(op2.kind)->Some_0,
                            Box::new(atom_expr(b.kind)),
                            Box::new(atom_expr(c.kind)),
                        ),
                    ),
                ),
            ),
            rest,
        ),
{
    let toks = seq![Ok(a), Ok(op1), Ok(b), Ok(op2), Ok(c)] + rest;
    let t1 = seq![Ok(op1), Ok(b), Ok(op2), Ok(c)] + rest;
    let t2 = seq![Ok(b), Ok(op2), Ok(c)] + rest;
    let t3 = seq![Ok(op2), Ok(c)] + rest;
    let t4 = seq![Ok(c)] + rest;
    assert(toks.skip(1) =~= t1);
    assert(t1.skip(1) =~= t2);
    assert(t2.skip(1) =~= t3);
    assert(t3.skip(1) =~= t4);
    assert(t4.skip(1) =~= rest);
    let ea = atom_expr(a.kind);
    let eb = atom_expr(b.kind);
    let ec = atom_expr(c.kind);
    let o1 = spec_assign_from_token(op1.kind)->Some_0;
    let o2 = spec_assign_from_token(op2.kind)->Some_0;
    assert(spec_lbp(BindingPower::Assignment) == EXPR_MIN_BP);
    assert(spec_rbp(BindingPower::Assignment) == EXPR_MIN_BP);
    assert(spec_parse_primary(toks, eof) == (Ok::<SpecExpr, SpecParseFail>(ea), t1));
    assert(spec_parse_primary(t2, eof) == (Ok::<SpecExpr, SpecParseFail>(eb), t3));
    assert(spec_parse_primary(t4, eof) == (Ok::<SpecExpr, SpecParseFail>(ec), rest));
    assert(spec_expr_tail(rest, ec, EXPR_MIN_BP as u8, eof) == (
        Ok::<SpecExpr, SpecParseFail>(ec),
        rest,
    ));
    assert(spec_parse_expr_bp(t4, EXPR_MIN_BP as u8, eof) == (
        Ok::<SpecExpr, SpecParseFail>(ec),
        rest,
    ));
    let fold2 = SpecExpr::Assign(o2, Box::new(eb), Box::new(ec));
    assert(spec_expr_tail(rest, fold2, EXPR_MIN_BP as u8, eof) == (
        Ok::<SpecExpr, SpecParseFail>(fold2),
        rest,
    ));
    assert(spec_expr_tail(t3, eb, EXPR_MIN_BP as u8, eof) == (
        Ok::<SpecExpr, SpecParseFail>(fold2),
        rest,
    ));
    assert(spec_parse_expr_bp(t2, EXPR_MIN_BP as u8, eof) == (
        Ok::<SpecExpr, SpecParseFail>(fold2),
        rest,
    ));
    let fold1 = SpecExpr::Assign(o1, Box::new(ea), Box::new(fold2));
    assert(spec_expr_tail(rest, fold1, EXPR_MIN_BP as u8, eof) == (
        Ok::<SpecExpr, SpecParseFail>(fold1),
        rest,
    ));
    assert(spec_expr_tail(t1, ea, EXPR_MIN_BP as u8, eof) == (
        Ok::<SpecExpr, SpecParseFail>(fold1),
        rest,
    ));
}

/// The parts of a function definition land unchanged in its tree: whatever
/// token spells the return type, whatever text the name token carries, and
/// whatever the parameter list and body parse to make up the resulting
/// `FuncDef` exactly.
pub proof fn lemma_function_fields(
    ty: SpecToken,
    name: SpecToken,
    after: Seq<SpecLexItem>,
    ps: Seq<(Type, Seq<u8>)>,
    rest1: Seq<SpecLexItem>,
    stmts: Seq<SpecStmt>,
    rest2: Seq<SpecLexItem>,
    eof: Span,
)
    requires
        spec_type_from_token(ty.kind) is Some,
        name.kind is Identifier,
        spec_parse_params(after, eof) == (Ok::<Seq<(Type, Seq<u8>)>, SpecParseFail>(ps), rest1),
        spec_parse_block_stmt(rest1, eof) == (Ok::<Seq<SpecStmt>, SpecParseFail>(stmts), rest2),
        rest1.len() <= after.len(),
        rest2.len() <= rest1.len(),
    ensures
        spec_parse_function(seq![Ok(ty), Ok(name)] + after, eof) == (
            Ok::<SpecFuncDef, SpecParseFail>(
                SpecFuncDef {
                    return_type: spec_type_from_token(ty.kind)->Some_0,
                    name: name.kind->Identifier_0,
                    params: ps,
                    body: stmts,
                },
            ),
            rest2,
        ),
{
    let toks = seq![Ok(ty), Ok(name)] + after;
    assert(toks.skip(1) =~= seq![Ok(name)] + after);
    assert((seq![Ok(name)] + after).skip(1) =~= after);
}

/// For a valid single-function program `<type> <id> ( void ) { <stmts> }`,
/// parsing succeeds with exactly one function whose return type, name,
/// empty parameter list and body statements match the source.
pub proof fn lemma_single_function_program(
    ty: SpecToken,
    name: SpecToken,
    lp: SpecToken,
    vd: SpecToken,
    rp: SpecToken,
    body: Seq<SpecLexItem>,
    stmts: Seq<SpecStmt>,
    eof: Span,
)
    requires
        spec_type_from_token(ty.kind) is Some,
        name.kind is Identifier,
        lp.kind == SpecTokenType::Static(StaticToken::LParen),
        vd.kind == SpecTokenType::Static(StaticToken::Void),
        rp.kind == SpecTokenType::Static(StaticToken::RParen),
        spec_parse_block_stmt(body, eof) == (
            Ok::<Seq<SpecStmt>, SpecParseFail>(stmts),
            Seq::<SpecLexItem>::empty(),
        ),
    ensures
        spec_parse_program(seq![Ok(ty), Ok(name), Ok(lp), Ok(vd), Ok(rp)] + body, eof) == Ok::<
            SpecProgram,
            SpecParseFail,
        >(
            SpecProgram {
                functions: seq![
                    SpecFuncDef {
                        return_type: spec_type_from_token(ty.kind)->Some_0,
                        name: name.kind->Identifier_0,
                        params: Seq::empty(),
                        body: stmts,
                    },
                ],
            },
        ),
{
    let toks = seq![Ok(ty), Ok(name), Ok(lp), Ok(vd), Ok(rp)] + body;
    let after = seq![Ok(lp), Ok(vd), Ok(rp)] + body;
    assert(toks =~= seq![Ok(ty), Ok(name)] + after);
    assert(after.skip(1) =~= seq![Ok(vd), Ok(rp)] + body);
    assert(after.skip(1).skip(1) =~= seq![Ok(rp)] + body);
    assert((seq![Ok(rp)] + body).skip(1) =~= body);
    assert(spec_parse_params(after, eof) == (
        Ok::<Seq<(Type, Seq<u8>)>, SpecParseFail>(Seq::empty()),
        body,
    ));
    lemma_function_fields(ty, name, after, Seq::empty(), body, stmts, Seq::empty(), eof);
    let f = SpecFuncDef {
        return_type: spec_type_from_token(ty.kind)->Some_0,
        name: name.kind->Identifier_0,
        params: Seq::empty(),
        body: stmts,
    };
    assert(spec_parse_function(toks, eof) == (
        Ok::<SpecFuncDef, SpecParseFail>(f),
        Seq::<SpecLexItem>::empty(),
    ));
    assert(spec_program_items(Seq::<SpecLexItem>::empty(), eof) == (
        Ok::<Seq<SpecFuncDef>, SpecParseFail>(Seq::empty()),
        Seq::<SpecLexItem>::empty(),
    ));
    assert(spec_program_items(toks, eof) == (
        Ok::<Seq<SpecFuncDef>, SpecParseFail>(seq![f] + Seq::<SpecFuncDef>::empty()),
        Seq::<SpecLexItem>::empty(),
    ));
    assert(seq![f] + Seq::<SpecFuncDef>::empty() =~= seq![f]);
}

/// The parser: a peekable token source plus the precomputed span for
/// end-of-input diagnostics.
pub struct Parser {
    lexer: Lexer,
    peeked: Option<Option<LexItem>>,
    eof_span: Span,
}

impl Parser {
    /// The tokens not yet consumed, cut short at the first lexing failure.
    pub closed spec fn toks(&self) -> Seq<SpecLexItem> {
        match self.peeked {
            None => spec_tokens(self.lexer.src(), self.lexer.cursor()),
            Some(None) => Seq::empty(),
            Some(Some(item)) => seq![item_view(item)] + spec_tokens(
                self.lexer.src(),
                self.lexer.cursor(),
            ),
        }
    }

    /// The span a hypothetical end-of-input token would carry.
    pub closed spec fn eof(&self) -> Span {
        self.eof_span
    }

    /// The parser's invariant: the lexer is intact and the lookahead slot is
    /// consistent with it.
    pub closed spec fn wf(&self) -> bool {
        &&& self.lexer.wf()
        &&& match self.peeked {
            None => true,
            Some(None) => spec_next_token(self.lexer.src(), self.lexer.cursor())
                is Eof,
            Some(Some(item)) => item is Err ==> self.lexer.cursor().pos == self.lexer.src().len(),
        }
    }

    pub fn new(lexer: Lexer) -> (r: Parser)
        requires
            lexer.wf(),
        ensures
            r.wf(),
            r.toks() == spec_tokens(lexer.src(), lexer.cursor()),
            r.eof() == spec_eof_span(lexer.src(), lexer.cursor()),
    {
        let eof_span = lexer.eof_span();
        Parser { lexer, peeked: None, eof_span }
    }

    /// Consumes and returns the next item of the stream.
    fn next_item(&mut self) -> (r: Option<LexItem>)
        requires
            old(self).wf(),
        ensures
            final(self).wf(),
            final(self).eof() == old(self).eof(),
            old(self).toks().len() == 0 ==> r is None && final(self).toks() == old(self).toks(),
            old(self).toks().len() > 0 ==> (r matches Some(item) && item_view(item) == old(
                self,
            ).toks()[0]) && final(self).toks() == old(self).toks().skip(1),
    {
        let p = self.peeked.take();
        match p {
            Some(Some(item)) => {
                proof {
                    assert((seq![item_view(item)] + spec_tokens(
                        self.lexer.src(),
                        self.lexer.cursor(),
                    )).skip(1) =~= spec_tokens(self.lexer.src(), self.lexer.cursor()));
                }
                Some(item)
            },
            Some(None) => None,
            None => {
                let r = self.lexer.next_token();
                proof {
                    let src = old(self).lexer.src();
                    let c = old(self).lexer.cursor();
                    match spec_next_token(src, c) {
                        SpecLexStep::Eof(_) => {
                        },
                        SpecLexStep::Tok(t, c2) => {
                            assert(old(self).toks() == seq![
                                Ok::<SpecToken, CompilerError<LexError>>(t),
                            ] + spec_tokens(src, c2));
                            assert(old(self).toks()[0] == Ok::<
                                SpecToken,
                                CompilerError<LexError>,
                            >(t));
                            assert(old(self).toks().skip(1) =~= spec_tokens(src, c2));
                        },
                        SpecLexStep::Fail(e) => {
                            assert(old(self).toks() == seq![
                                Err::<SpecToken, CompilerError<LexError>>(e),
                            ]);
                            assert(spec_next_token(src, final(self).lexer.cursor())
                                is Eof);
                            assert(old(self).toks().skip(1) =~= spec_tokens(
                                src,
                                final(self).lexer.cursor(),
                            ));
                        },
                    }
                }
                r
            },
        }
    }

    /// Fills the lookahead slot without consuming anything.
    fn fill_peek(&mut self)
        requires
            old(self).wf(),
        ensures
            final(self).wf(),
            final(self).eof() == old(self).eof(),
            final(self).toks() == old(self).toks(),
            final(self).peeked is Some,
            match final(self).peeked {
                Some(Some(item)) => old(self).toks().len() > 0 && item_view(item) == old(
                    self,
                ).toks()[0],
                Some(None) => old(self).toks().len() == 0,
                None => false,
            },
    {
        if self.peeked.is_none() {
            let item = self.lexer.next_token();
            proof {
                let src = old(self).lexer.src();
                let c = old(self).lexer.cursor();
                match spec_next_token(src, c) {
                    SpecLexStep::Eof(_) => {
                    },
                    SpecLexStep::Tok(t, c2) => {
                        assert(old(self).toks() == seq![
                            Ok::<SpecToken, CompilerError<LexError>>(t),
                        ] + spec_tokens(src, c2));
                    },
                    SpecLexStep::Fail(e) => {
                        assert(old(self).toks() == seq![
                            Err::<SpecToken, CompilerError<LexError>>(e),
                        ]);
                    },
                }
            }
            self.peeked = Some(item);
            proof {
                let p = self.peeked;
                if p matches Some(Some(it)) && it is Err {
                    assert(self.lexer.cursor().pos == self.lexer.src().len());
                }
                match spec_next_token(old(self).lexer.src(), old(self).lexer.cursor()) {
                    SpecLexStep::Eof(_) => {
                    },
                    SpecLexStep::Tok(t, c2) => {
                    },
                    SpecLexStep::Fail(e) => {
                        assert(self.toks() =~= old(self).toks());
                    },
                }
            }
        }
    }

    /// Consumes the next token, which must be the given static token.
    fn expect(&mut self, st: StaticToken) -> (r: Result<(), CompilerError<ParseError>>)
        requires
            old(self).wf(),
        ensures
            final(self).wf(),
            final(self).eof() == old(self).eof(),
            (res_unit(r), final(self).toks()) == spec_expect(old(self).toks(), st, old(self).eof()),
    {
        match self.next_item() {
            None => Err(
                CompilerError::new(
                    ParseError::unexpected_eof(Expected::Token(st)),
                    self.eof_span,
                ),
            ),
            Some(Err(e)) => Err(CompilerError::new(ParseError::LexError(e.error), e.span)),
            Some(Ok(tok)) => {
                let is_match = match &tok.kind {
                    TokenType::Static(s2) => *s2 == st,
                    _ => false,
                };
                if is_match {
                    Ok(())
                } else {
                    let span = tok.span;
                    Err(
                        CompilerError::new(
                            ParseError::unexpected_token(Expected::Token(st), tok.kind),
                            span,
                        ),
                    )
                }
            },
        }
    }

    /// Consumes the next token if it is the given static token; says whether
    /// it did. End of input is not an error here.
    fn expect_optional(&mut self, st: StaticToken) -> (r: Result<bool, CompilerError<ParseError>>)
        requires
            old(self).wf(),
        ensures
            final(self).wf(),
            final(self).eof() == old(self).eof(),
            (res_bool(r), final(self).toks()) == spec_expect_optional(
                old(self).toks(),
                st,
                old(self).eof(),
            ),
    {
        self.fill_peek();
        let found: bool = match &self.peeked {
            Some(Some(Ok(tok))) => match &tok.kind {
                TokenType::Static(s2) => *s2 == st,
                _ => false,
            },
            _ => false,
        };
        let is_fault: bool = match &self.peeked {
            Some(Some(Err(_))) => true,
            _ => false,
        };
        if is_fault {
            match self.next_item() {
                Some(Err(e)) => Err(CompilerError::new(ParseError::LexError(e.error), e.span)),
                _ => {
                    proof {
                        assert(false);
                    }
                    Ok(false)
                },
            }
        } else if found {
            let _ = self.next_item();
            Ok(true)
        } else {
            Ok(false)
        }
    }

    /// Consumes the next token, which must be an identifier, and yields its
    /// text.
    fn expect_identifier(&mut self) -> (r: Result<Vec<u8>, CompilerError<ParseError>>)
        requires
            old(self).wf(),
        ensures
            final(self).wf(),
            final(self).eof() == old(self).eof(),
            (res_ident(r), final(self).toks()) == spec_expect_identifier(
                old(self).toks(),
                old(self).eof(),
            ),
    {
        match self.next_item() {
            None => Err(
                CompilerError::new(ParseError::unexpected_eof(Expected::Identifier), self.eof_span),
            ),
            Some(Err(e)) => Err(CompilerError::new(ParseError::LexError(e.error), e.span)),
            Some(Ok(tok)) => match tok.kind {
                TokenType::Identifier(name) => Ok(name),
                kind => Err(
                    CompilerError::new(
                        ParseError::unexpected_token(Expected::Identifier, kind),
                        tok.span,
                    ),
                ),
            },
        }
    }

    /// Consumes the next token, which must be a type keyword.
    fn expect_type(&mut self) -> (r: Result<Type, CompilerError<ParseError>>)
        requires
            old(self).wf(),
        ensures
            final(self).wf(),
            final(self).eof() == old(self).eof(),
            (res_type(r), final(self).toks()) == spec_expect_type(
                old(self).toks(),
                old(self).eof(),
            ),
    {
        match self.next_item() {
            None => Err(
                CompilerError::new(ParseError::unexpected_eof(Expected::Type), self.eof_span),
            ),
            Some(Err(e)) => Err(CompilerError::new(ParseError::LexError(e.error), e.span)),
            Some(Ok(tok)) => match Type::from_token_type(&tok.kind) {
                Some(ty) => Ok(ty),
                None => Err(
                    CompilerError::new(
                        ParseError::unexpected_token(Expected::Type, tok.kind),
                        tok.span,
                    ),
                ),
            },
        }
    }

    /// Parses a type keyword and an identifier.
    fn parse_typed_identifier(&mut self) -> (r: Result<(Type, Vec<u8>), CompilerError<ParseError>>)
        requires
            old(self).wf(),
        ensures
            final(self).wf(),
            final(self).eof() == old(self).eof(),
            (res_typed_ident(r), final(self).toks()) == spec_parse_typed_identifier(
                old(self).toks(),
                old(self).eof(),
            ),
    {
        let ty = match self.expect_type() {
            Ok(ty) => ty,
            Err(e) => {
                return Err(e);
            },
        };
        let name = match self.expect_identifier() {
            Ok(name) => name,
            Err(e) => {
                return Err(e);
            },
        };
        Ok((ty, name))
    }

    /// Parses a primary expression: a constant, an identifier, a
    /// parenthesized expression, or a prefix unary operator.
    fn parse_primary(&mut self) -> (r: Result<Expression, CompilerError<ParseError>>)
        requires
            old(self).wf(),
        ensures
            final(self).wf(),
            final(self).eof() == old(self).eof(),
            (res_expr(r), final(self).toks()) == spec_parse_primary(
                old(self).toks(),
                old(self).eof(),
            ),
            final(self).toks().len() <= old(self).toks().len(),
            r is Ok ==> final(self).toks().len() < old(self).toks().len(),
        decreases self.toks().len(), 0int,
    {
        match self.next_item() {
            None => Err(
                CompilerError::new(ParseError::unexpected_eof(Expected::Expression), self.eof_span),
            ),
            Some(Err(e)) => Err(CompilerError::new(ParseError::LexError(e.error), e.span)),
            Some(Ok(tok)) => match tok.kind {
                TokenType::Constant(n) => Ok(Expression::Constant(n)),
                TokenType::Identifier(v) => Ok(Expression::Identifier(v)),
                TokenType::Static(StaticToken::LParen) => {
                    let inner = match self.parse_expression() {
                        Ok(e) => e,
                        Err(e) => {
                            return Err(e);
                        },
                    };
                    match self.expect(StaticToken::RParen) {
                        Ok(_) => Ok(inner),
                        Err(e) => Err(e),
                    }
                },
                TokenType::Static(StaticToken::Minus) => {
                    match self.parse_expr_bp(UNARY_RBP) {
                        Ok(operand) => Ok(Expression::Unary(UnaryOp::Negate, Box::new(operand))),
                        Err(e) => Err(e),
                    }
                },
                TokenType::Static(StaticToken::Not) => {
                    match self.parse_expr_bp(UNARY_RBP) {
                        Ok(operand) => Ok(Expression::Unary(UnaryOp::Not, Box::new(operand))),
                        Err(e) => Err(e),
                    }
                },
                kind => {
                    let span = tok.span;
                    Err(
                        CompilerError::new(
                            ParseError::unexpected_token(Expected::Expression, kind),
                            span,
                        ),
                    )
                },
            },
        }
    }

    /// Parses an expression by precedence climbing: a primary expression,
    /// then every following operator that binds at least as tightly as
    /// `min_bp`, folding binary, assignment and postfix forms.
    fn parse_expr_bp(&mut self, min_bp: u8) -> (r: Result<Expression, CompilerError<ParseError>>)
        requires
            old(self).wf(),
            min_bp >= 2,
        ensures
            final(self).wf(),
            final(self).eof() == old(self).eof(),
            (res_expr(r), final(self).toks()) == spec_parse_expr_bp(
                old(self).toks(),
                min_bp,
                old(self).eof(),
            ),
            final(self).toks().len() <= old(self).toks().len(),
            r is Ok ==> final(self).toks().len() < old(self).toks().len(),
        decreases self.toks().len(), 2int,
    {
        let ghost toks0 = self.toks();
        let ghost eof0 = self.eof();
        let mut lhs = match self.parse_primary() {
            Ok(e) => e,
            Err(e) => {
                return Err(e);
            },
        };
        let ghost toks_t = self.toks();
        let ghost lhs0 = lhs@;
        loop
            invariant_except_break
                self.wf(),
                min_bp >= 2,
                toks0 == old(self).toks(),
                eof0 == old(self).eof(),
                self.eof() == eof0,
                self.toks().len() < toks0.len(),
                spec_parse_expr_bp(toks0, min_bp, eof0) == spec_expr_tail(
                    toks_t,
                    lhs0,
                    min_bp,
                    eof0,
                ),
                spec_expr_tail(toks_t, lhs0, min_bp, eof0) == spec_expr_tail(
                    self.toks(),
                    lhs@,
                    min_bp,
                    eof0,
                ),
            ensures
                self.wf(),
                self.eof() == eof0,
                toks0 == old(self).toks(),
                eof0 == old(self).eof(),
                self.toks().len() < toks0.len(),
                spec_parse_expr_bp(toks0, min_bp, eof0) == spec_expr_tail(
                    toks_t,
                    lhs0,
                    min_bp,
                    eof0,
                ),
                spec_expr_tail(toks_t, lhs0, min_bp, eof0) == (
                    Ok::<SpecExpr, SpecParseFail>(lhs@),
                    self.toks(),
                ),
            decreases self.toks().len(),
        {
            self.fill_peek();
            let ghost cur = self.toks();
            let mut do_break = false;
            let mut is_fault = false;
            let mut opkind: Option<TokenType> = None;
            match &self.peeked {
                Some(None) => {
                    do_break = true;
                },
                Some(Some(Err(_))) => {
                    is_fault = true;
                },
                Some(Some(Ok(tok))) => {
                    let bp = BindingPower::infer_from_token_type(&tok.kind);
                    let l = bp.left_associative();
                    if l < min_bp {
                        do_break = true;
                    } else {
                        opkind = Some(tok.kind.clone());
                    }
                },
                None => {
                    proof {
                        assert(false);
                    }
                    do_break = true;
                },
            }
            if do_break {
                proof {
                    assert(spec_expr_tail(cur, lhs@, min_bp, eof0) == (
                        Ok::<SpecExpr, SpecParseFail>(lhs@),
                        cur,
                    ));
                }
                break ;
            }
            if is_fault {
                match self.next_item() {
                    Some(Err(e)) => {
                        return Err(CompilerError::new(ParseError::LexError(e.error), e.span));
                    },
                    _ => {
                        proof {
                            assert(false);
                        }
                        return Err(
                            CompilerError::new(
                                ParseError::unexpected_eof(Expected::Expression),
                                self.eof_span,
                            ),
                        );
                    },
                }
            }
            let kind = match opkind {
                Some(k) => k,
                None => {
                    proof {
                        assert(false);
                    }
                    return Err(
                        CompilerError::new(
                            ParseError::unexpected_eof(Expected::Expression),
                            self.eof_span,
                        ),
                    );
                },
            };
            let bp = BindingPower::infer_from_token_type(&kind);
            let rbp = bp.right_associative();
            let _ = self.next_item();
            if let Some(op) = AssignOp::from_token_type(&kind) {
                let rhs = match self.parse_expr_bp(rbp) {
                    Ok(e) => e,
                    Err(e) => {
                        return Err(e);
                    },
                };
                lhs = Expression::Assign(op, Box::new(lhs), Box::new(rhs));
            } else if let Some(op) = BinaryOp::from_token_type(&kind) {
                let rhs = match self.parse_expr_bp(rbp) {
                    Ok(e) => e,
                    Err(e) => {
                        return Err(e);
                    },
                };
                lhs = Expression::Binary(op, Box::new(lhs), Box::new(rhs));
            } else {
                match kind {
                    TokenType::Static(StaticToken::LParen) => {
                        let args = match self.parse_call_args() {
                            Ok(v) => v,
                            Err(e) => {
                                return Err(e);
                            },
                        };
                        lhs = Expression::Call(Box::new(lhs), args);
                    },
                    TokenType::Static(StaticToken::LBracket) => {
                        let idx = match self.parse_expression() {
                            Ok(e) => e,
                            Err(e) => {
                                return Err(e);
                            },
                        };
                        match self.expect(StaticToken::RBracket) {
                            Ok(_) => {
                            },
                            Err(e) => {
                                return Err(e);
                            },
                        }
                        lhs = Expression::Subscript(Box::new(lhs), Box::new(idx));
                    },
                    TokenType::Static(StaticToken::Dot) => {
                        let name = match self.expect_identifier() {
                            Ok(v) => v,
                            Err(e) => {
                                return Err(e);
                            },
                        };
                        lhs = Expression::Member(Box::new(lhs), name);
                    },
                    _ => {
                        proof {
                            assert(false);
                        }
                        return Err(
                            CompilerError::new(
                                ParseError::unexpected_eof(Expected::Expression),
                                self.eof_span,
                            ),
                        );
                    },
                }
            }
        }
        Ok(lhs)
    }

    /// Parses a full expression. The comma operator does not belong to an
    /// expression, so parsing stops at a comma.
    pub fn parse_expression(&mut self) -> (r: Result<Expression, CompilerError<ParseError>>)
        requires
            old(self).wf(),
        ensures
            final(self).wf(),
            final(self).eof() == old(self).eof(),
            (res_expr(r), final(self).toks()) == spec_parse_expression(
                old(self).toks(),
                old(self).eof(),
            ),
            final(self).toks().len() <= old(self).toks().len(),
            r is Ok ==> final(self).toks().len() < old(self).toks().len(),
        decreases self.toks().len(), 3int,
    {
        self.parse_expr_bp(EXPR_MIN_BP)
    }

    /// Parses the arguments of a call, after its opening `(`, up to and
    /// including the closing `)`.
    fn parse_call_args(&mut self) -> (r: Result<Vec<Expression>, CompilerError<ParseError>>)
        requires
            old(self).wf(),
        ensures
            final(self).wf(),
            final(self).eof() == old(self).eof(),
            (res_args(r), final(self).toks()) == spec_call_args(old(self).toks(), old(self).eof()),
            final(self).toks().len() <= old(self).toks().len(),
            r is Ok ==> final(self).toks().len() < old(self).toks().len(),
        decreases self.toks().len(), 4int,
    {
        let ghost toks0 = self.toks();
        let ghost eof0 = self.eof();
        match self.expect_optional(StaticToken::RParen) {
            Err(e) => {
                return Err(e);
            },
            Ok(true) => {
                let args: Vec<Expression> = Vec::new();
                proof {
                    assert(crate::ast::exprs_view(args@) =~= Seq::<SpecExpr>::empty());
                }
                return Ok(args);
            },
            Ok(false) => {
            },
        }
        let first = match self.parse_expression() {
            Ok(e) => e,
            Err(e) => {
                return Err(e);
            },
        };
        let mut args: Vec<Expression> = Vec::new();
        proof {
            assert(crate::ast::exprs_view(args@) =~= Seq::<SpecExpr>::empty());
            crate::ast::lemma_exprs_view_push(args@, first);
        }
        args.push(first);
        proof {
            assert(crate::ast::exprs_view(args@) =~= seq![crate::ast::expr_view(&first)]);
        }
        loop
            invariant
                self.wf(),
                toks0 == old(self).toks(),
                eof0 == old(self).eof(),
                self.eof() == eof0,
                self.toks().len() < toks0.len(),
                spec_call_args(toks0, eof0) == spec_args_tail(
                    self.toks(),
                    crate::ast::exprs_view(args@),
                    eof0,
                ),
            decreases self.toks().len(),
        {
            match self.expect_optional(StaticToken::Comma) {
                Err(e) => {
                    return Err(e);
                },
                Ok(false) => {
                    match self.expect(StaticToken::RParen) {
                        Ok(_) => {
                            return Ok(args);
                        },
                        Err(e) => {
                            return Err(e);
                        },
                    }
                },
                Ok(true) => {
                    let next = match self.parse_expression() {
                        Ok(e) => e,
                        Err(e) => {
                            return Err(e);
                        },
                    };
                    proof {
                        crate::ast::lemma_exprs_view_push(args@, next);
                    }
                    args.push(next);
                },
            }
        }
    }

    /// Parses `break ;`.
    pub fn parse_break_statement(&mut self) -> (r: Result<Statement, CompilerError<ParseError>>)
        requires
            old(self).wf(),
        ensures
            final(self).wf(),
            final(self).eof() == old(self).eof(),
            (res_stmt(r), final(self).toks()) == spec_parse_break(old(self).toks(), old(self).eof()),
            final(self).toks().len() <= old(self).toks().len(),
            r is Ok ==> final(self).toks().len() < old(self).toks().len(),
    {
        match self.expect(StaticToken::Break) {
            Err(e) => {
                return Err(e);
            },
            Ok(_) => {
            },
        }
        match self.expect(StaticToken::Semicolon) {
            Err(e) => {
                return Err(e);
            },
            Ok(_) => {
            },
        }
        Ok(Statement::Break)
    }

    /// Parses `continue ;`.
    pub fn parse_continue_statement(&mut self) -> (r: Result<Statement, CompilerError<ParseError>>)
        requires
            old(self).wf(),
        ensures
            final(self).wf(),
            final(self).eof() == old(self).eof(),
            (res_stmt(r), final(self).toks()) == spec_parse_continue(
                old(self).toks(),
                old(self).eof(),
            ),
            final(self).toks().len() <= old(self).toks().len(),
            r is Ok ==> final(self).toks().len() < old(self).toks().len(),
    {
        match self.expect(StaticToken::Continue) {
            Err(e) => {
                return Err(e);
            },
            Ok(_) => {
            },
        }
        match self.expect(StaticToken::Semicolon) {
            Err(e) => {
                return Err(e);
            },
            Ok(_) => {
            },
        }
        Ok(Statement::Continue)
    }

    /// Parses the null statement, a bare `;`.
    pub fn parse_null_statement(&mut self) -> (r: Result<Statement, CompilerError<ParseError>>)
        requires
            old(self).wf(),
        ensures
            final(self).wf(),
            final(self).eof() == old(self).eof(),
            (res_stmt(r), final(self).toks()) == spec_parse_null(old(self).toks(), old(self).eof()),
            final(self).toks().len() <= old(self).toks().len(),
            r is Ok ==> final(self).toks().len() < old(self).toks().len(),
    {
        match self.expect(StaticToken::Semicolon) {
            Err(e) => {
                return Err(e);
            },
            Ok(_) => {
            },
        }
        Ok(Statement::Null)
    }

    /// Parses `return <expr> ;`.
    pub fn parse_return_statement(&mut self) -> (r: Result<Statement, CompilerError<ParseError>>)
        requires
            old(self).wf(),
        ensures
            final(self).wf(),
            final(self).eof() == old(self).eof(),
            (res_stmt(r), final(self).toks()) == spec_parse_return(
                old(self).toks(),
                old(self).eof(),
            ),
            final(self).toks().len() <= old(self).toks().len(),
            r is Ok ==> final(self).toks().len() < old(self).toks().len(),
        decreases self.toks().len(), 6int,
    {
        match self.expect(StaticToken::Return) {
            Err(e) => {
                return Err(e);
            },
            Ok(_) => {
            },
        }
        let expr = match self.parse_expression() {
            Ok(e) => e,
            Err(e) => {
                return Err(e);
            },
        };
        match self.expect(StaticToken::Semicolon) {
            Err(e) => {
                return Err(e);
            },
            Ok(_) => {
            },
        }
        Ok(Statement::Return(ReturnStmt { expr }))
    }

    /// Parses `<type> <name> [ = <expr> ] ;`: the initializer is optional
    /// and, when present, a full expression.
    pub fn parse_declaration_statement(&mut self) -> (r: Result<
        DeclarationStmt,
        CompilerError<ParseError>,
    >)
        requires
            old(self).wf(),
        ensures
            final(self).wf(),
            final(self).eof() == old(self).eof(),
            (res_decl(r), final(self).toks()) == spec_parse_declaration(
                old(self).toks(),
                old(self).eof(),
            ),
            final(self).toks().len() <= old(self).toks().len(),
            r is Ok ==> final(self).toks().len() < old(self).toks().len(),
        decreases self.toks().len(), 6int,
    {
        let var_type = match self.expect_type() {
            Ok(ty) => ty,
            Err(e) => {
                return Err(e);
            },
        };
        let name = match self.expect_identifier() {
            Ok(v) => v,
            Err(e) => {
                return Err(e);
            },
        };
        let has_init = match self.expect_optional(StaticToken::Equal) {
            Ok(b) => b,
            Err(e) => {
                return Err(e);
            },
        };
        let initializer: Option<Expression> = if has_init {
            match self.parse_expression() {
                Ok(e) => Some(e),
                Err(e) => {
                    return Err(e);
                },
            }
        } else {
            None
        };
        match self.expect(StaticToken::Semicolon) {
            Err(e) => {
                return Err(e);
            },
            Ok(_) => {
            },
        }
        Ok(DeclarationStmt { var_type, name, initializer })
    }

    /// Parses `if ( <cond> ) <then> [ else <else> ]`.
    pub fn parse_if_statement(&mut self) -> (r: Result<Statement, CompilerError<ParseError>>)
        requires
            old(self).wf(),
        ensures
            final(self).wf(),
            final(self).eof() == old(self).eof(),
            (res_stmt(r), final(self).toks()) == spec_parse_if(old(self).toks(), old(self).eof()),
            final(self).toks().len() <= old(self).toks().len(),
            r is Ok ==> final(self).toks().len() < old(self).toks().len(),
        decreases self.toks().len(), 6int,
    {
        match self.expect(StaticToken::If) {
            Err(e) => {
                return Err(e);
            },
            Ok(_) => {
            },
        }
        match self.expect(StaticToken::LParen) {
            Err(e) => {
                return Err(e);
            },
            Ok(_) => {
            },
        }
        let cond = match self.parse_expression() {
            Ok(e) => e,
            Err(e) => {
                return Err(e);
            },
        };
        match self.expect(StaticToken::RParen) {
            Err(e) => {
                return Err(e);
            },
            Ok(_) => {
            },
        }
        let then_block = match self.parse_statement() {
            Ok(s) => s,
            Err(e) => {
                return Err(e);
            },
        };
        let has_else = match self.expect_optional(StaticToken::Else) {
            Ok(b) => b,
            Err(e) => {
                return Err(e);
            },
        };
        if has_else {
            let else_stmt = match self.parse_statement() {
                Ok(s) => s,
                Err(e) => {
                    return Err(e);
                },
            };
            Ok(
                Statement::If(
                    IfStmt {
                        cond,
                        then_block: Box::new(then_block),
                        else_block: Some(Box::new(else_stmt)),
                    },
                ),
            )
        } else {
            Ok(
                Statement::If(
                    IfStmt { cond, then_block: Box::new(then_block), else_block: None },
                ),
            )
        }
    }

    /// Parses `while ( <cond> ) <body>`.
    pub fn parse_while_statement(&mut self) -> (r: Result<Statement, CompilerError<ParseError>>)
        requires
            old(self).wf(),
        ensures
            final(self).wf(),
            final(self).eof() == old(self).eof(),
            (res_stmt(r), final(self).toks()) == spec_parse_while(
                old(self).toks(),
                old(self).eof(),
            ),
            final(self).toks().len() <= old(self).toks().len(),
            r is Ok ==> final(self).toks().len() < old(self).toks().len(),
        decreases self.toks().len(), 6int,
    {
        match self.expect(StaticToken::While) {
            Err(e) => {
                return Err(e);
            },
            Ok(_) => {
            },
        }
        match self.expect(StaticToken::LParen) {
            Err(e) => {
                return Err(e);
            },
            Ok(_) => {
            },
        }
        let cond = match self.parse_expression() {
            Ok(e) => e,
            Err(e) => {
                return Err(e);
            },
        };
        match self.expect(StaticToken::RParen) {
            Err(e) => {
                return Err(e);
            },
            Ok(_) => {
            },
        }
        let body = match self.parse_statement() {
            Ok(s) => s,
            Err(e) => {
                return Err(e);
            },
        };
        Ok(Statement::While(WhileStmt { cond, body: Box::new(body) }))
    }

    /// Parses `do <body> while ( <cond> ) ;`.
    pub fn parse_do_while_statement(&mut self) -> (r: Result<Statement, CompilerError<ParseError>>)
        requires
            old(self).wf(),
        ensures
            final(self).wf(),
            final(self).eof() == old(self).eof(),
            (res_stmt(r), final(self).toks()) == spec_parse_do_while(
                old(self).toks(),
                old(self).eof(),
            ),
            final(self).toks().len() <= old(self).toks().len(),
            r is Ok ==> final(self).toks().len() < old(self).toks().len(),
        decreases self.toks().len(), 6int,
    {
        match self.expect(StaticToken::Do) {
            Err(e) => {
                return Err(e);
            },
            Ok(_) => {
            },
        }
        let body = match self.parse_statement() {
            Ok(s) => s,
            Err(e) => {
                return Err(e);
            },
        };
        match self.expect(StaticToken::While) {
            Err(e) => {
                return Err(e);
            },
            Ok(_) => {
            },
        }
        match self.expect(StaticToken::LParen) {
            Err(e) => {
                return Err(e);
            },
            Ok(_) => {
            },
        }
        let cond = match self.parse_expression() {
            Ok(e) => e,
            Err(e) => {
                return Err(e);
            },
        };
        match self.expect(StaticToken::RParen) {
            Err(e) => {
                return Err(e);
            },
            Ok(_) => {
            },
        }
        match self.expect(StaticToken::Semicolon) {
            Err(e) => {
                return Err(e);
            },
            Ok(_) => {
            },
        }
        Ok(Statement::DoWhile(DoWhileStmt { cond, body: Box::new(body) }))
    }

    /// Parses one optional clause of a `for` header, ended by the given
    /// token.
    fn parse_opt_clause(&mut self, end: StaticToken) -> (r: Result<
        Option<Expression>,
        CompilerError<ParseError>,
    >)
        requires
            old(self).wf(),
        ensures
            final(self).wf(),
            final(self).eof() == old(self).eof(),
            ({
                let (rs, rest) = spec_parse_opt_clause(old(self).toks(), end, old(self).eof());
                &&& final(self).toks() == rest
                &&& match (r, rs) {
                    (Ok(o), Ok(so)) => crate::ast::opt_expr_view(&o) == so,
                    (Err(e), Err(se)) => e@ == se,
                    _ => false,
                }
            }),
            final(self).toks().len() <= old(self).toks().len(),
            r is Ok ==> final(self).toks().len() < old(self).toks().len(),
        decreases self.toks().len(), 4int,
    {
        match self.expect_optional(end) {
            Err(e) => {
                return Err(e);
            },
            Ok(true) => {
                return Ok(None);
            },
            Ok(false) => {
            },
        }
        let e = match self.parse_expression() {
            Ok(e) => e,
            Err(e) => {
                return Err(e);
            },
        };
        match self.expect(end) {
            Err(e) => {
                return Err(e);
            },
            Ok(_) => {
            },
        }
        Ok(Some(e))
    }

    /// Parses `for ( [init] ; [cond] ; [post] ) <body>`: any of the three
    /// clauses may be empty.
    pub fn parse_for_statement(&mut self) -> (r: Result<Statement, CompilerError<ParseError>>)
        requires
            old(self).wf(),
        ensures
            final(self).wf(),
            final(self).eof() == old(self).eof(),
            (res_stmt(r), final(self).toks()) == spec_parse_for(old(self).toks(), old(self).eof()),
            final(self).toks().len() <= old(self).toks().len(),
            r is Ok ==> final(self).toks().len() < old(self).toks().len(),
        decreases self.toks().len(), 6int,
    {
        match self.expect(StaticToken::For) {
            Err(e) => {
                return Err(e);
            },
            Ok(_) => {
            },
        }
        match self.expect(StaticToken::LParen) {
            Err(e) => {
                return Err(e);
            },
            Ok(_) => {
            },
        }
        let init = match self.parse_opt_clause(StaticToken::Semicolon) {
            Ok(o) => o,
            Err(e) => {
                return Err(e);
            },
        };
        let cond = match self.parse_opt_clause(StaticToken::Semicolon) {
            Ok(o) => o,
            Err(e) => {
                return Err(e);
            },
        };
        let post = match self.parse_opt_clause(StaticToken::RParen) {
            Ok(o) => o,
            Err(e) => {
                return Err(e);
            },
        };
        let body = match self.parse_statement() {
            Ok(s) => s,
            Err(e) => {
                return Err(e);
            },
        };
        Ok(Statement::For(ForStmt { init, cond, post, body: Box::new(body) }))
    }

    /// Parses `{ <stmts> }`: zero or more statements up to the matching
    /// `}`.
    pub fn parse_block_statement(&mut self) -> (r: Result<Block, CompilerError<ParseError>>)
        requires
            old(self).wf(),
        ensures
            final(self).wf(),
            final(self).eof() == old(self).eof(),
            (res_block(r), final(self).toks()) == spec_parse_block_stmt(
                old(self).toks(),
                old(self).eof(),
            ),
            final(self).toks().len() <= old(self).toks().len(),
            r is Ok ==> final(self).toks().len() < old(self).toks().len(),
        decreases self.toks().len(), 6int,
    {
        let ghost toks0 = self.toks();
        let ghost eof0 = self.eof();
        match self.expect(StaticToken::LBrace) {
            Err(e) => {
                return Err(e);
            },
            Ok(_) => {
            },
        }
        let ghost toks1 = self.toks();
        let mut statements: Vec<Statement> = Vec::new();
        proof {
            assert(stmts_view(statements@) =~= Seq::<SpecStmt>::empty());
        }
        loop
            invariant
                self.wf(),
                toks0 == old(self).toks(),
                eof0 == old(self).eof(),
                self.eof() == eof0,
                toks1.len() < toks0.len(),
                self.toks().len() <= toks1.len(),
                spec_parse_block_stmt(toks0, eof0) == spec_block_items(toks1, eof0),
                ({
                    let (r2, rest2) = spec_block_items(self.toks(), eof0);
                    spec_block_items(toks1, eof0) == (match r2 {
                        Ok(ss) => (
                            Ok::<Seq<SpecStmt>, SpecParseFail>(stmts_view(statements@) + ss),
                            rest2,
                        ),
                        Err(e) => (Err::<Seq<SpecStmt>, SpecParseFail>(e), rest2),
                    })
                }),
            decreases self.toks().len(),
        {
            match self.expect_optional(StaticToken::RBrace) {
                Err(e) => {
                    return Err(e);
                },
                Ok(true) => {
                    proof {
                        assert(stmts_view(statements@) + Seq::<SpecStmt>::empty() =~= stmts_view(
                            statements@,
                        ));
                    }
                    return Ok(Block { statements });
                },
                Ok(false) => {
                },
            }
            let s = match self.parse_statement() {
                Ok(s) => s,
                Err(e) => {
                    return Err(e);
                },
            };
            proof {
                crate::ast::lemma_stmts_view_push(statements@, s);
                let (r2, rest2) = spec_block_items(self.toks(), eof0);
                if r2 is Ok {
                    assert(stmts_view(statements@) + (seq![stmt_view(&s)] + r2->Ok_0) =~= stmts_view(
                        statements@,
                    ).push(stmt_view(&s)) + r2->Ok_0);
                }
            }
            statements.push(s);
        }
    }

    /// Parses one statement, dispatched by the peeked token. A construct
    /// that starts like an expression but fails to parse as one is reported
    /// as "expected a statement" at that token's span.
    pub fn parse_statement(&mut self) -> (r: Result<Statement, CompilerError<ParseError>>)
        requires
            old(self).wf(),
        ensures
            final(self).wf(),
            final(self).eof() == old(self).eof(),
            (res_stmt(r), final(self).toks()) == spec_parse_statement(
                old(self).toks(),
                old(self).eof(),
            ),
            final(self).toks().len() <= old(self).toks().len(),
            r is Ok ==> final(self).toks().len() < old(self).toks().len(),
        decreases self.toks().len(), 7int,
    {
        self.fill_peek();
        let mut code: u8 = 0;
        let mut fallback: Option<(TokenType, Span)> = None;
        match &self.peeked {
            Some(None) => {
                return Err(
                    CompilerError::new(
                        ParseError::unexpected_eof(Expected::Statement),
                        self.eof_span,
                    ),
                );
            },
            Some(Some(Err(_))) => {
                code = 1;
            },
            Some(Some(Ok(tok))) => {
                match &tok.kind {
                    TokenType::Static(StaticToken::Break) => {
                        code = 2;
                    },
                    TokenType::Static(StaticToken::Continue) => {
                        code = 3;
                    },
                    TokenType::Static(StaticToken::Do) => {
                        code = 4;
                    },
                    TokenType::Static(StaticToken::For) => {
                        code = 5;
                    },
                    TokenType::Static(StaticToken::If) => {
                        code = 6;
                    },
                    TokenType::Static(StaticToken::Return) => {
                        code = 7;
                    },
                    TokenType::Static(StaticToken::While) => {
                        code = 8;
                    },
                    TokenType::Static(StaticToken::Semicolon) => {
                        code = 9;
                    },
                    TokenType::Static(StaticToken::LBrace) => {
                        code = 10;
                    },
                    TokenType::Static(StaticToken::Int) => {
                        code = 11;
                    },
                    TokenType::Static(StaticToken::Void) => {
                        code = 11;
                    },
                    _ => {
                        fallback = Some((tok.kind.clone(), tok.span));
                    },
                }
            },
            None => {
                proof {
                    assert(false);
                }
                code = 1;
            },
        }
        if code == 1 {
            match self.next_item() {
                Some(Err(e)) => {
                    return Err(CompilerError::new(ParseError::LexError(e.error), e.span));
                },
                _ => {
                    proof {
                        assert(false);
                    }
                    return Err(
                        CompilerError::new(
                            ParseError::unexpected_eof(Expected::Statement),
                            self.eof_span,
                        ),
                    );
                },
            }
        } else if code == 2 {
            self.parse_break_statement()
        } else if code == 3 {
            self.parse_continue_statement()
        } else if code == 4 {
            self.parse_do_while_statement()
        } else if code == 5 {
            self.parse_for_statement()
        } else if code == 6 {
            self.parse_if_statement()
        } else if code == 7 {
            self.parse_return_statement()
        } else if code == 8 {
            self.parse_while_statement()
        } else if code == 9 {
            self.parse_null_statement()
        } else if code == 10 {
            match self.parse_block_statement() {
                Ok(b) => Ok(Statement::Block(b)),
                Err(e) => Err(e),
            }
        } else if code == 11 {
            match self.parse_declaration_statement() {
                Ok(d) => Ok(Statement::Declaration(d)),
                Err(e) => Err(e),
            }
        } else {
            let (kind, span) = match fallback {
                Some(p) => p,
                None => {
                    proof {
                        assert(false);
                    }
                    return Err(
                        CompilerError::new(
                            ParseError::unexpected_eof(Expected::Statement),
                            self.eof_span,
                        ),
                    );
                },
            };
            let expr = match self.parse_expression() {
                Ok(e) => e,
                Err(_) => {
                    return Err(
                        CompilerError::new(
                            ParseError::unexpected_token(Expected::Statement, kind),
                            span,
                        ),
                    );
                },
            };
            match self.expect(StaticToken::Semicolon) {
                Err(e) => {
                    return Err(e);
                },
                Ok(_) => {
                },
            }
            Ok(Statement::Expr(ExprStmt { expr }))
        }
    }

    /// Parses a function's parameter list: `(`, an optional literal `void`
    /// marker for "no parameters", then `<type> <identifier>` pairs with
    /// optional commas up to the closing `)`. A trailing comma before `)` is
    /// tolerated, a deliberate leniency of this grammar.
    pub fn parse_function_parameters(&mut self) -> (r: Result<
        Vec<(Type, Vec<u8>)>,
        CompilerError<ParseError>,
    >)
        requires
            old(self).wf(),
        ensures
            final(self).wf(),
            final(self).eof() == old(self).eof(),
            (res_params(r), final(self).toks()) == spec_parse_params(
                old(self).toks(),
                old(self).eof(),
            ),
            final(self).toks().len() <= old(self).toks().len(),
            r is Ok ==> final(self).toks().len() < old(self).toks().len(),
        decreases self.toks().len(), 6int,
    {
        let ghost toks0 = self.toks();
        let ghost eof0 = self.eof();
        match self.expect(StaticToken::LParen) {
            Err(e) => {
                return Err(e);
            },
            Ok(_) => {
            },
        }
        match self.expect_optional(StaticToken::Void) {
            Err(e) => {
                return Err(e);
            },
            Ok(_) => {
            },
        }
        let ghost toks2 = self.toks();
        let mut params: Vec<(Type, Vec<u8>)> = Vec::new();
        proof {
            assert(crate::ast::params_view(params@) =~= Seq::<(Type, Seq<u8>)>::empty());
        }
        loop
            invariant
                self.wf(),
                toks0 == old(self).toks(),
                eof0 == old(self).eof(),
                self.eof() == eof0,
                toks2.len() < toks0.len(),
                self.toks().len() <= toks2.len(),
                spec_parse_params(toks0, eof0) == spec_params_items(toks2, eof0),
                ({
                    let (r2, rest2) = spec_params_items(self.toks(), eof0);
                    spec_params_items(toks2, eof0) == (match r2 {
                        Ok(ps) => (
                            Ok::<Seq<(Type, Seq<u8>)>, SpecParseFail>(
                                crate::ast::params_view(params@) + ps,
                            ),
                            rest2,
                        ),
                        Err(e) => (Err::<Seq<(Type, Seq<u8>)>, SpecParseFail>(e), rest2),
                    })
                }),
            decreases self.toks().len(),
        {
            match self.expect_optional(StaticToken::RParen) {
                Err(e) => {
                    return Err(e);
                },
                Ok(true) => {
                    proof {
                        assert(crate::ast::params_view(params@) + Seq::<(Type, Seq<u8>)>::empty()
                            =~= crate::ast::params_view(params@));
                    }
                    return Ok(params);
                },
                Ok(false) => {
                },
            }
            let p = match self.parse_typed_identifier() {
                Ok(p) => p,
                Err(e) => {
                    return Err(e);
                },
            };
            match self.expect_optional(StaticToken::Comma) {
                Err(e) => {
                    return Err(e);
                },
                Ok(_) => {
                },
            }
            let ghost pv = (p.0, p.1@);
            proof {
                assert(crate::ast::params_view(params@.push(p)) =~= crate::ast::params_view(
                    params@,
                ).push(pv));
                let (r2, rest2) = spec_params_items(self.toks(), eof0);
                if r2 is Ok {
                    assert(crate::ast::params_view(params@) + (seq![pv] + r2->Ok_0)
                        =~= crate::ast::params_view(params@).push(pv) + r2->Ok_0);
                }
            }
            params.push(p);
        }
    }

    /// Parses a function definition:
    /// `<type> <identifier> ( <params> ) { <stmts> }`.
    pub fn parse_function(&mut self) -> (r: Result<FuncDef, CompilerError<ParseError>>)
        requires
            old(self).wf(),
        ensures
            final(self).wf(),
            final(self).eof() == old(self).eof(),
            (res_func(r), final(self).toks()) == spec_parse_function(
                old(self).toks(),
                old(self).eof(),
            ),
            final(self).toks().len() <= old(self).toks().len(),
            r is Ok ==> final(self).toks().len() < old(self).toks().len(),
        decreases self.toks().len(), 9int,
    {
        let tn = match self.parse_typed_identifier() {
            Ok(p) => p,
            Err(e) => {
                return Err(e);
            },
        };
        let params = match self.parse_function_parameters() {
            Ok(ps) => ps,
            Err(e) => {
                return Err(e);
            },
        };
        let body = match self.parse_block_statement() {
            Ok(b) => b,
            Err(e) => {
                return Err(e);
            },
        };
        let (return_type, name) = tn;
        Ok(FuncDef { return_type, name, params, body })
    }

    /// Parses a complete program: every function definition until end of
    /// input. A program without a single function definition is an error,
    /// not a valid empty tree.
    pub fn parse(self) -> (r: Result<Program, CompilerError<ParseError>>)
        requires
            self.wf(),
        ensures
            res_prog(r) == spec_parse_program(self.toks(), self.eof()),
    {
        let ghost toks0 = self.toks();
        let ghost eof0 = self.eof();
        let mut this = self;
        let mut functions: Vec<FuncDef> = Vec::new();
        proof {
            assert(functions@.map_values(|f: FuncDef| f@) =~= Seq::<SpecFuncDef>::empty());
        }
        loop
            invariant_except_break
                this.wf(),
                toks0 == self.toks(),
                eof0 == self.eof(),
                this.eof() == eof0,
                this.toks().len() <= toks0.len(),
                ({
                    let (r2, rest2) = spec_program_items(this.toks(), eof0);
                    spec_program_items(toks0, eof0) == (match r2 {
                        Ok(fs) => (
                            Ok::<Seq<SpecFuncDef>, SpecParseFail>(
                                functions@.map_values(|f: FuncDef| f@) + fs,
                            ),
                            rest2,
                        ),
                        Err(e) => (Err::<Seq<SpecFuncDef>, SpecParseFail>(e), rest2),
                    })
                }),
            ensures
                this.wf(),
                eof0 == self.eof(),
                this.eof() == eof0,
                this.toks().len() == 0,
                ({
                    let (r2, rest2) = spec_program_items(this.toks(), eof0);
                    spec_program_items(toks0, eof0) == (match r2 {
                        Ok(fs) => (
                            Ok::<Seq<SpecFuncDef>, SpecParseFail>(
                                functions@.map_values(|f: FuncDef| f@) + fs,
                            ),
                            rest2,
                        ),
                        Err(e) => (Err::<Seq<SpecFuncDef>, SpecParseFail>(e), rest2),
                    })
                }),
            decreases this.toks().len(),
        {
            this.fill_peek();
            let mut at_end = false;
            let mut is_fault = false;
            match &this.peeked {
                Some(None) => {
                    at_end = true;
                },
                Some(Some(Err(_))) => {
                    is_fault = true;
                },
                Some(Some(Ok(_))) => {
                },
                None => {
                    proof {
                        assert(false);
                    }
                    at_end = true;
                },
            }
            if at_end {
                break ;
            }
            if is_fault {
                match this.next_item() {
                    Some(Err(e)) => {
                        return Err(CompilerError::new(ParseError::LexError(e.error), e.span));
                    },
                    _ => {
                        proof {
                            assert(false);
                        }
                        return Err(
                            CompilerError::new(
                                ParseError::unexpected_eof(Expected::FunctionOrDeclaration),
                                this.eof_span,
                            ),
                        );
                    },
                }
            }
            let f = match this.parse_function() {
                Ok(f) => f,
                Err(e) => {
                    return Err(e);
                },
            };
            proof {
                assert(functions@.push(f).map_values(|g: FuncDef| g@) =~= functions@.map_values(
                    |g: FuncDef| g@,
                ).push(f@));
                let (r2, rest2) = spec_program_items(this.toks(), eof0);
                if r2 is Ok {
                    assert(functions@.map_values(|g: FuncDef| g@) + (seq![f@] + r2->Ok_0)
                        =~= functions@.map_values(|g: FuncDef| g@).push(f@) + r2->Ok_0);
                }
            }
            functions.push(f);
        }
        proof {
            assert(functions@.map_values(|f: FuncDef| f@) + Seq::<SpecFuncDef>::empty()
                =~= functions@.map_values(|f: FuncDef| f@));
        }
        if functions.len() == 0 {
            return Err(
                CompilerError::new(
                    ParseError::unexpected_eof(Expected::FunctionOrDeclaration),
                    this.eof_span,
                ),
            );
        }
        Ok(Program { functions })
    }
}

} // verus!
