//! Operator kinds and their binding powers: a pure mapping from token kinds
//! to operators, and from operators to the precedence classes that drive the
//! expression parser.

use vstd::prelude::*;

use crate::token::{SpecTokenType, StaticToken, TokenType};

verus! {

#[derive(Debug, Clone, Copy, PartialEq, Eq, Structural)]
pub enum BinaryOp {
    // arithmetic
    Add,
    Subtract,
    Multiply,
    Divide,
    // relational
    LessThan,
    GreaterThan,
    Equal,
    NotEqual,
    LessThanOrEqual,
    GreaterThanOrEqual,
}

#[derive(Debug, Clone, Copy, PartialEq, Eq, Structural)]
pub enum UnaryOp {
    Negate,
    Not,
}

#[derive(Debug, Clone, Copy, PartialEq, Eq, Structural)]
pub enum AssignOp {
    /// `=`
    Assign,
    /// `+=`
    PlusAssign,
    /// `-=`
    MinusAssign,
    /// `*=`
    MulAssign,
    /// `/=`
    DivAssign,
    /// `%=`
    ModAssign,
    /// `&=`
    AndAssign,
    /// `|=`
    OrAssign,
    /// `^=`
    XorAssign,
    /// `<<=`
    LShiftAssign,
    /// `>>=`
    RShiftAssign,
}

/// Binding power levels for operators in the expression parser.
///
/// Higher numeric values mean tighter binding. Both left and right binding
/// powers are provided so that precedence climbing can distinguish
/// associativity and prefix/postfix operators.
#[derive(Debug, Clone, Copy, PartialEq, Eq, Structural)]
pub enum BindingPower {
    /// Sentinel for a token that is no operator.
    Base,
    /// Comma operator `,`: lowest precedence, left-associative.
    Comma,
    /// Assignment operators `=`, `+=`, `-=`, ...: right-associative.
    Assignment,
    /// Conditional operator `?:`: right-associative.
    Conditional,
    /// Logical OR `||` (left-associative).
    LogicalOr,
    /// Logical AND `&&` (left-associative).
    LogicalAnd,
    /// Bitwise OR `|` (left-associative).
    BitwiseOr,
    /// Bitwise XOR `^` (left-associative).
    BitwiseXor,
    /// Bitwise AND `&` (left-associative).
    BitwiseAnd,
    /// Equality `==`, `!=` (left-associative).
    Equality,
    /// Relational `<`, `>`, `<=`, `>=` (left-associative).
    Relational,
    /// Shift `<<`, `>>` (left-associative).
    Shift,
    /// Additive `+`, `-` (left-associative).
    Additive,
    /// Multiplicative `*`, `/`, `%` (left-associative).
    Multiplicative,
    /// Prefix unary operators: only bind to the right.
    Unary,
    /// Postfix operators (call, subscript, member access): only bind to the
    /// left, tightest of all.
    Postfix,
}

/// The precedence class of a binary operator.
pub open spec fn spec_binary_binding_power(op: BinaryOp) -> BindingPower {
    match op {
        BinaryOp::Multiply | BinaryOp::Divide => BindingPower::Multiplicative,
        BinaryOp::Add | BinaryOp::Subtract => BindingPower::Additive,
        BinaryOp::LessThan | BinaryOp::GreaterThan | BinaryOp::LessThanOrEqual
            | BinaryOp::GreaterThanOrEqual => BindingPower::Relational,
        BinaryOp::Equal | BinaryOp::NotEqual => BindingPower::Equality,
    }
}

/// The binary operator a token spells, if any.
pub open spec fn spec_binary_from_token(k: SpecTokenType) -> Option<BinaryOp> {
    match k {
        SpecTokenType::Static(st) => match st {
            StaticToken::Plus => Some(BinaryOp::Add),
            StaticToken::Minus => Some(BinaryOp::Subtract),
            StaticToken::Star => Some(BinaryOp::Multiply),
            StaticToken::Slash => Some(BinaryOp::Divide),
            StaticToken::LessThan => Some(BinaryOp::LessThan),
            StaticToken::GreaterThan => Some(BinaryOp::GreaterThan),
            StaticToken::LessThanOrEqual => Some(BinaryOp::LessThanOrEqual),
            StaticToken::GreaterThanOrEqual => Some(BinaryOp::GreaterThanOrEqual),
            StaticToken::EqualEqual => Some(BinaryOp::Equal),
            StaticToken::NotEqual => Some(BinaryOp::NotEqual),
            _ => None,
        },
        _ => None,
    }
}

impl BinaryOp {
    pub fn binding_power(&self) -> (r: BindingPower)
        ensures
            r == spec_binary_binding_power(*self),
    {
        match self {
            BinaryOp::Multiply | BinaryOp::Divide => BindingPower::Multiplicative,
            BinaryOp::Add | BinaryOp::Subtract => BindingPower::Additive,
            BinaryOp::LessThan | BinaryOp::GreaterThan | BinaryOp::LessThanOrEqual
                | BinaryOp::GreaterThanOrEqual => BindingPower::Relational,
            BinaryOp::Equal | BinaryOp::NotEqual => BindingPower::Equality,
        }
    }

    pub fn from_token_type(token: &TokenType) -> (r: Option<BinaryOp>)
        ensures
            r == spec_binary_from_token(token@),
    {
        match token {
            TokenType::Static(st) => match st {
                StaticToken::Plus => Some(BinaryOp::Add),
                StaticToken::Minus => Some(BinaryOp::Subtract),
                StaticToken::Star => Some(BinaryOp::Multiply),
                StaticToken::Slash => Some(BinaryOp::Divide),
                StaticToken::LessThan => Some(BinaryOp::LessThan),
                StaticToken::GreaterThan => Some(BinaryOp::GreaterThan),
                StaticToken::LessThanOrEqual => Some(BinaryOp::LessThanOrEqual),
                StaticToken::GreaterThanOrEqual => Some(BinaryOp::GreaterThanOrEqual),
                StaticToken::EqualEqual => Some(BinaryOp::Equal),
                StaticToken::NotEqual => Some(BinaryOp::NotEqual),
                _ => None,
            },
            _ => None,
        }
    }
}

/// The unary operator a token spells, if any.
pub open spec fn spec_unary_from_token(k: SpecTokenType) -> Option<UnaryOp> {
    match k {
        SpecTokenType::Static(st) => match st {
            StaticToken::Not => Some(UnaryOp::Not),
            StaticToken::Minus => Some(UnaryOp::Negate),
            _ => None,
        },
        _ => None,
    }
}

impl UnaryOp {
    pub fn from_token_type(token: &TokenType) -> (r: Option<UnaryOp>)
        ensures
            r == spec_unary_from_token(token@),
    {
        match token {
            TokenType::Static(st) => match st {
                StaticToken::Not => Some(UnaryOp::Not),
                StaticToken::Minus => Some(UnaryOp::Negate),
                _ => None,
            },
            _ => None,
        }
    }

    pub fn binding_power(&self) -> (r: BindingPower)
        ensures
            r == BindingPower::Unary,
    {
        BindingPower::Unary
    }
}

/// The assignment operator a token spells, if any.
pub open spec fn spec_assign_from_token(k: SpecTokenType) -> Option<AssignOp> {
    match k {
        SpecTokenType::Static(st) => match st {
            StaticToken::Equal => Some(AssignOp::Assign),
            StaticToken::PlusEqual => Some(AssignOp::PlusAssign),
            StaticToken::MinusEqual => Some(AssignOp::MinusAssign),
            StaticToken::StarEqual => Some(AssignOp::MulAssign),
            StaticToken::SlashEqual => Some(AssignOp::DivAssign),
            StaticToken::PercentEqual => Some(AssignOp::ModAssign),
            StaticToken::AmpersandEqual => Some(AssignOp::AndAssign),
            StaticToken::PipeEqual => Some(AssignOp::OrAssign),
            StaticToken::CaretEqual => Some(AssignOp::XorAssign),
            StaticToken::LeftShiftEqual => Some(AssignOp::LShiftAssign),
            StaticToken::RightShiftEqual => Some(AssignOp::RShiftAssign),
            _ => None,
        },
        _ => None,
    }
}

impl AssignOp {
    pub fn binding_power(&self) -> (r: BindingPower)
        ensures
            r == BindingPower::Assignment,
    {
        BindingPower::Assignment
    }

    pub fn from_token_type(token: &TokenType) -> (r: Option<AssignOp>)
        ensures
            r == spec_assign_from_token(token@),
    {
        match token {
            TokenType::Static(st) => match st {
                StaticToken::Equal => Some(AssignOp::Assign),
                StaticToken::PlusEqual => Some(AssignOp::PlusAssign),
                StaticToken::MinusEqual => Some(AssignOp::MinusAssign),
                StaticToken::StarEqual => Some(AssignOp::MulAssign),
                StaticToken::SlashEqual => Some(AssignOp::DivAssign),
                StaticToken::PercentEqual => Some(AssignOp::ModAssign),
                StaticToken::AmpersandEqual => Some(AssignOp::AndAssign),
                StaticToken::PipeEqual => Some(AssignOp::OrAssign),
                StaticToken::CaretEqual => Some(AssignOp::XorAssign),
                StaticToken::LeftShiftEqual => Some(AssignOp::LShiftAssign),
                StaticToken::RightShiftEqual => Some(AssignOp::RShiftAssign),
                _ => None,
            },
            _ => None,
        }
    }
}

/// Left binding power of each precedence class.
pub open spec fn spec_lbp(bp: BindingPower) -> u8 {
    match bp {
        BindingPower::Base => 0,
        BindingPower::Comma => 1,
        BindingPower::Assignment => 2,
        BindingPower::Conditional => 3,
        BindingPower::LogicalOr => 4,
        BindingPower::LogicalAnd => 5,
        BindingPower::BitwiseOr => 6,
        BindingPower::BitwiseXor => 7,
        BindingPower::BitwiseAnd => 8,
        BindingPower::Equality => 9,
        BindingPower::Relational => 10,
        BindingPower::Shift => 11,
        BindingPower::Additive => 12,
        BindingPower::Multiplicative => 13,
        BindingPower::Unary => 0,
        BindingPower::Postfix => 17,
    }
}

/// Right binding power of each precedence class.
pub open spec fn spec_rbp(bp: BindingPower) -> u8 {
    match bp {
        BindingPower::Base => 0,
        BindingPower::Comma => 2,
        BindingPower::Assignment => 2,
        BindingPower::Conditional => 3,
        BindingPower::LogicalOr => 5,
        BindingPower::LogicalAnd => 6,
        BindingPower::BitwiseOr => 7,
        BindingPower::BitwiseXor => 8,
        BindingPower::BitwiseAnd => 9,
        BindingPower::Equality => 10,
        BindingPower::Relational => 11,
        BindingPower::Shift => 12,
        BindingPower::Additive => 13,
        BindingPower::Multiplicative => 14,
        BindingPower::Unary => 16,
        BindingPower::Postfix => 0,
    }
}

/// The precedence class that continues an expression at the given token: an
/// assignment or binary operator's class, the postfix class at `(`, `[` and
/// `.`, and the sentinel everywhere else.
pub open spec fn spec_infer_binding_power(k: SpecTokenType) -> BindingPower {
    if spec_assign_from_token(k) is Some {
        BindingPower::Assignment
    } else if spec_binary_from_token(k) is Some {
        spec_binary_binding_power(spec_binary_from_token(k)->Some_0)
    } else if k == SpecTokenType::Static(StaticToken::LBracket) || k == SpecTokenType::Static(
        StaticToken::LParen,
    ) || k == SpecTokenType::Static(StaticToken::Dot) {
        BindingPower::Postfix
    } else {
        BindingPower::Base
    }
}

impl BindingPower {
    /// Left binding power.
    pub fn left_associative(self) -> (r: u8)
        ensures
            r == spec_lbp(self),
    {
        match self {
            BindingPower::Base => 0,
            BindingPower::Comma => 1,
            BindingPower::Assignment => 2,
            BindingPower::Conditional => 3,
            BindingPower::LogicalOr => 4,
            BindingPower::LogicalAnd => 5,
            BindingPower::BitwiseOr => 6,
            BindingPower::BitwiseXor => 7,
            BindingPower::BitwiseAnd => 8,
            BindingPower::Equality => 9,
            BindingPower::Relational => 10,
            BindingPower::Shift => 11,
            BindingPower::Additive => 12,
            BindingPower::Multiplicative => 13,
            BindingPower::Unary => 0,
            BindingPower::Postfix => 17,
        }
    }

    /// Right binding power.
    pub fn right_associative(self) -> (r: u8)
        ensures
            r == spec_rbp(self),
    {
        match self {
            BindingPower::Base => 0,
            BindingPower::Comma => 2,
            BindingPower::Assignment => 2,
            BindingPower::Conditional => 3,
            BindingPower::LogicalOr => 5,
            BindingPower::LogicalAnd => 6,
            BindingPower::BitwiseOr => 7,
            BindingPower::BitwiseXor => 8,
            BindingPower::BitwiseAnd => 9,
            BindingPower::Equality => 10,
            BindingPower::Relational => 11,
            BindingPower::Shift => 12,
            BindingPower::Additive => 13,
            BindingPower::Multiplicative => 14,
            BindingPower::Unary => 16,
            BindingPower::Postfix => 0,
        }
    }

    /// The left and right binding powers together.
    pub fn as_tuple(&self) -> (r: (u8, u8))
        ensures
            r.0 == spec_lbp(*self),
            r.1 == spec_rbp(*self),
    {
        (self.left_associative(), self.right_associative())
    }

    /// The class of the operator that the given token spells, or the
    /// sentinel.
    pub fn infer_from_token_type(token_type: &TokenType) -> (r: Self)
        ensures
            r == spec_infer_binding_power(token_type@),
    {
        if let Some(op) = AssignOp::from_token_type(token_type) {
            op.binding_power()
        } else if let Some(op) = BinaryOp::from_token_type(token_type) {
            op.binding_power()
        } else {
            match token_type {
                TokenType::Static(StaticToken::LBracket) => BindingPower::Postfix,
                TokenType::Static(StaticToken::LParen) => BindingPower::Postfix,
                TokenType::Static(StaticToken::Dot) => BindingPower::Postfix,
                _ => BindingPower::Base,
            }
        }
    }
}

/// The shape of the table that makes precedence climbing associate
/// correctly: every left-associative class binds tighter on the right (so
/// climbing stops at an equal operator on the left), the right-associative
/// classes do not (so the right-hand operand is parsed first), prefix
/// operators have no left power, and postfix operators have no right power.
pub proof fn lemma_binding_power_shape(bp: BindingPower)
    ensures
        (bp == BindingPower::Comma || bp == BindingPower::LogicalOr || bp
            == BindingPower::LogicalAnd || bp == BindingPower::BitwiseOr || bp
            == BindingPower::BitwiseXor || bp == BindingPower::BitwiseAnd || bp
            == BindingPower::Equality || bp == BindingPower::Relational || bp
            == BindingPower::Shift || bp == BindingPower::Additive || bp
            == BindingPower::Multiplicative) ==> spec_rbp(bp) == spec_lbp(bp) + 1,
        (bp == BindingPower::Assignment || bp == BindingPower::Conditional) ==> spec_rbp(bp)
            <= spec_lbp(bp),
        bp == BindingPower::Unary ==> spec_lbp(bp) == 0,
        bp == BindingPower::Postfix ==> spec_rbp(bp) == 0,
{
}

} // verus!
