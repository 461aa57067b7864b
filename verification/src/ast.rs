//! The abstract syntax tree: programs, function definitions, statements and
//! expressions, together with their mathematical models.

use vstd::prelude::*;

use crate::operator::{AssignOp, BinaryOp, UnaryOp};
use crate::token::{SpecTokenType, StaticToken, TokenType};

verus! {

/// The supported declared types.
#[derive(Debug, Clone, Copy, PartialEq, Eq, Structural)]
pub enum Type {
    Int,
    Void,
}

/// The declared type a keyword token spells, if any.
pub open spec fn spec_type_from_token(k: SpecTokenType) -> Option<Type> {
    match k {
        SpecTokenType::Static(StaticToken::Int) => Some(Type::Int),
        SpecTokenType::Static(StaticToken::Void) => Some(Type::Void),
        _ => None,
    }
}

impl Type {
    pub fn from_token_type(token: &TokenType) -> (r: Option<Type>)
        ensures
            r == spec_type_from_token(token@),
    {
        match token {
            TokenType::Static(StaticToken::Int) => Some(Type::Int),
            TokenType::Static(StaticToken::Void) => Some(Type::Void),
            _ => None,
        }
    }
}

/// The mathematical model of an expression.
pub enum SpecExpr {
    Constant(i32),
    Identifier(Seq<u8>),
    Unary(UnaryOp, Box<SpecExpr>),
    Binary(BinaryOp, Box<SpecExpr>, Box<SpecExpr>),
    Assign(AssignOp, Box<SpecExpr>, Box<SpecExpr>),
    Call(Box<SpecExpr>, Seq<SpecExpr>),
    Subscript(Box<SpecExpr>, Box<SpecExpr>),
    Member(Box<SpecExpr>, Seq<u8>),
}

/// An expression. Each composite expression exclusively owns its
/// sub-expressions.
#[derive(Debug, PartialEq)]
pub enum Expression {
    Constant(i32),
    Identifier(Vec<u8>),
    Unary(UnaryOp, Box<Expression>),
    Binary(BinaryOp, Box<Expression>, Box<Expression>),
    Assign(AssignOp, Box<Expression>, Box<Expression>),
    Call(Box<Expression>, Vec<Expression>),
    Subscript(Box<Expression>, Box<Expression>),
    Member(Box<Expression>, Vec<u8>),
}

/// The model of an expression.
pub open spec fn expr_view(e: &Expression) -> SpecExpr
    decreases e,
{
    match e {
        Expression::Constant(n) => SpecExpr::Constant(*n),
        Expression::Identifier(v) => SpecExpr::Identifier(v@),
        Expression::Unary(op, a) => SpecExpr::Unary(*op, Box::new(expr_view(a))),
        Expression::Binary(op, a, b) => SpecExpr::Binary(
            *op,
            Box::new(expr_view(a)),
            Box::new(expr_view(b)),
        ),
        Expression::Assign(op, a, b) => SpecExpr::Assign(
            *op,
            Box::new(expr_view(a)),
            Box::new(expr_view(b)),
        ),
        Expression::Call(f, args) => SpecExpr::Call(Box::new(expr_view(f)), exprs_view(args@)),
        Expression::Subscript(a, idx) => SpecExpr::Subscript(
            Box::new(expr_view(a)),
            Box::new(expr_view(idx)),
        ),
        Expression::Member(a, name) => SpecExpr::Member(Box::new(expr_view(a)), name@),
    }
}

/// The models of a sequence of expressions.
pub open spec fn exprs_view(v: Seq<Expression>) -> Seq<SpecExpr>
    decreases v,
{
    if v.len() == 0 {
        Seq::empty()
    } else {
        exprs_view(v.drop_last()).push(expr_view(&v.last()))
    }
}

impl View for Expression {
    type V = SpecExpr;

    open spec fn view(&self) -> SpecExpr {
        expr_view(self)
    }
}

/// The mathematical model of a statement.
pub enum SpecStmt {
    Block(Seq<SpecStmt>),
    Break,
    Continue,
    Declaration { var_type: Type, name: Seq<u8>, initializer: Option<SpecExpr> },
    DoWhile { cond: SpecExpr, body: Box<SpecStmt> },
    Expr(SpecExpr),
    For {
        init: Option<SpecExpr>,
        cond: Option<SpecExpr>,
        post: Option<SpecExpr>,
        body: Box<SpecStmt>,
    },
    If { cond: SpecExpr, then_block: Box<SpecStmt>, else_block: Option<Box<SpecStmt>> },
    Null,
    Return(SpecExpr),
    While { cond: SpecExpr, body: Box<SpecStmt> },
}

/// A block of statements, enclosed in curly braces.
#[derive(Debug, PartialEq)]
pub struct Block {
    pub statements: Vec<Statement>,
}

/// `<type> <name> [ = <initializer> ] ;`
#[derive(Debug, PartialEq)]
pub struct DeclarationStmt {
    pub var_type: Type,
    pub name: Vec<u8>,
    pub initializer: Option<Expression>,
}

/// `do <body> while ( <cond> ) ;`
#[derive(Debug, PartialEq)]
pub struct DoWhileStmt {
    pub cond: Expression,
    pub body: Box<Statement>,
}

/// An expression in statement position, terminated by `;`.
#[derive(Debug, PartialEq)]
pub struct ExprStmt {
    pub expr: Expression,
}

/// `for ( [init] ; [cond] ; [post] ) <body>`
#[derive(Debug, PartialEq)]
pub struct ForStmt {
    pub init: Option<Expression>,
    pub cond: Option<Expression>,
    pub post: Option<Expression>,
    pub body: Box<Statement>,
}

/// `if ( <cond> ) <then> [ else <else> ]`
#[derive(Debug, PartialEq)]
pub struct IfStmt {
    pub cond: Expression,
    pub then_block: Box<Statement>,
    pub else_block: Option<Box<Statement>>,
}

/// `return <expr> ;`
#[derive(Debug, PartialEq)]
pub struct ReturnStmt {
    pub expr: Expression,
}

/// `while ( <cond> ) <body>`
#[derive(Debug, PartialEq)]
pub struct WhileStmt {
    pub cond: Expression,
    pub body: Box<Statement>,
}

/// A statement within a function. Composite statements exclusively own
/// their nested statements and expressions.
#[derive(Debug, PartialEq)]
pub enum Statement {
    Block(Block),
    Break,
    Continue,
    Declaration(DeclarationStmt),
    DoWhile(DoWhileStmt),
    Expr(ExprStmt),
    For(ForStmt),
    If(IfStmt),
    Null,
    Return(ReturnStmt),
    While(WhileStmt),
}

/// The model of an optional expression.
pub open spec fn opt_expr_view(o: &Option<Expression>) -> Option<SpecExpr> {
    match o {
        Some(e) => Some(expr_view(e)),
        None => None,
    }
}

/// The model of a statement.
pub open spec fn stmt_view(s: &Statement) -> SpecStmt
    decreases s,
{
    match s {
        Statement::Block(b) => SpecStmt::Block(stmts_view(b.statements@)),
        Statement::Break => SpecStmt::Break,
        Statement::Continue => SpecStmt::Continue,
        Statement::Declaration(d) => SpecStmt::Declaration {
            var_type: d.var_type,
            name: d.name@,
            initializer: opt_expr_view(&d.initializer),
        },
        Statement::DoWhile(w) => SpecStmt::DoWhile {
            cond: expr_view(&w.cond),
            body: Box::new(stmt_view(&w.body)),
        },
        Statement::Expr(e) => SpecStmt::Expr(expr_view(&e.expr)),
        Statement::For(f) => SpecStmt::For {
            init: opt_expr_view(&f.init),
            cond: opt_expr_view(&f.cond),
            post: opt_expr_view(&f.post),
            body: Box::new(stmt_view(&f.body)),
        },
        Statement::If(i) => SpecStmt::If {
            cond: expr_view(&i.cond),
            then_block: Box::new(stmt_view(&i.then_block)),
            else_block: match &i.else_block {
                Some(s) => Some(Box::new(stmt_view(s))),
                None => None,
            },
        },
        Statement::Null => SpecStmt::Null,
        Statement::Return(r) => SpecStmt::Return(expr_view(&r.expr)),
        Statement::While(w) => SpecStmt::While {
            cond: expr_view(&w.cond),
            body: Box::new(stmt_view(&w.body)),
        },
    }
}

/// The models of a sequence of statements.
pub open spec fn stmts_view(v: Seq<Statement>) -> Seq<SpecStmt>
    decreases v,
{
    if v.len() == 0 {
        Seq::empty()
    } else {
        stmts_view(v.drop_last()).push(stmt_view(&v.last()))
    }
}

impl View for Statement {
    type V = SpecStmt;

    open spec fn view(&self) -> SpecStmt {
        stmt_view(self)
    }
}

impl View for Block {
    type V = Seq<SpecStmt>;

    open spec fn view(&self) -> Seq<SpecStmt> {
        stmts_view(self.statements@)
    }
}

impl View for DeclarationStmt {
    type V = SpecStmt;

    open spec fn view(&self) -> SpecStmt {
        SpecStmt::Declaration {
            var_type: self.var_type,
            name: self.name@,
            initializer: opt_expr_view(&self.initializer),
        }
    }
}

impl Statement {
    /// Wraps statements into a block statement.
    pub fn block_stmt(statements: Vec<Statement>) -> (r: Statement)
        ensures
            r@ == SpecStmt::Block(stmts_view(statements@)),
    {
        Statement::Block(Block { statements })
    }

    /// Builds an `if` statement from its parts.
    pub fn if_stmt(cond: Expression, then_block: Statement, else_block: Option<Statement>) -> (r:
        Statement)
        ensures
            r@ == (SpecStmt::If {
                cond: cond@,
                then_block: Box::new(then_block@),
                else_block: match else_block {
                    Some(s) => Some(Box::new(s@)),
                    None => None,
                },
            }),
    {
        Statement::If(
            IfStmt {
                cond,
                then_block: Box::new(then_block),
                else_block: match else_block {
                    Some(s) => Some(Box::new(s)),
                    None => None,
                },
            },
        )
    }

    /// Builds a `return` statement.
    pub fn return_stmt(expr: Expression) -> (r: Statement)
        ensures
            r@ == SpecStmt::Return(expr@),
    {
        Statement::Return(ReturnStmt { expr })
    }
}

/// The mathematical model of a function definition.
pub struct SpecFuncDef {
    pub return_type: Type,
    pub name: Seq<u8>,
    pub params: Seq<(Type, Seq<u8>)>,
    pub body: Seq<SpecStmt>,
}

/// A function definition. The function exclusively owns its body.
#[derive(Debug, PartialEq)]
pub struct FuncDef {
    pub return_type: Type,
    pub name: Vec<u8>,
    pub params: Vec<(Type, Vec<u8>)>,
    pub body: Block,
}

/// The models of a parameter list.
pub open spec fn params_view(v: Seq<(Type, Vec<u8>)>) -> Seq<(Type, Seq<u8>)> {
    v.map_values(|p: (Type, Vec<u8>)| (p.0, p.1@))
}

impl View for FuncDef {
    type V = SpecFuncDef;

    open spec fn view(&self) -> SpecFuncDef {
        SpecFuncDef {
            return_type: self.return_type,
            name: self.name@,
            params: params_view(self.params@),
            body: stmts_view(self.body.statements@),
        }
    }
}

/// The mathematical model of a program.
pub struct SpecProgram {
    pub functions: Seq<SpecFuncDef>,
}

/// Root of the AST: a complete program, its function definitions in source
/// order.
#[derive(Debug, PartialEq)]
pub struct Program {
    pub functions: Vec<FuncDef>,
}

impl View for Program {
    type V = SpecProgram;

    open spec fn view(&self) -> SpecProgram {
        SpecProgram { functions: self.functions@.map_values(|f: FuncDef| f@) }
    }
}

/// Appending an expression appends its model.
pub proof fn lemma_exprs_view_push(v: Seq<Expression>, e: Expression)
    ensures
        exprs_view(v.push(e)) == exprs_view(v).push(expr_view(&e)),
{
    assert(v.push(e).drop_last() =~= v);
}

/// Appending a statement appends its model.
pub proof fn lemma_stmts_view_push(v: Seq<Statement>, s: Statement)
    ensures
        stmts_view(v.push(s)) == stmts_view(v).push(stmt_view(&s)),
{
    assert(v.push(s).drop_last() =~= v);
}

} // verus!
