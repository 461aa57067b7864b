//! Binding power levels for operators in the expression parser.
//!
//! This enum represents the precedence hierarchy of operators in C. Higher
//! levels indicate higher precedence (tighter binding). Each level yields a
//! left and right binding power pair for precedence climbing.

use vstd::prelude::*;

verus! {

/// The precedence hierarchy, lowest binding first.
#[derive(Debug, Clone, Copy, PartialEq, Eq, PartialOrd, Ord, Structural)]
pub enum BindingPower {
    /// Assignment operators (`=`, `+=`, `-=`, ...).
    /// Right-associative: `a = b = c` parses as `a = (b = c)`.
    Assignment,
    /// Equality operators (`==`, `!=`).
    Equality,
    /// Relational operators (`<`, `>`, `<=`, `>=`).
    Relational,
    /// Additive operators (`+`, `-`).
    Additive,
    /// Multiplicative operators (`*`, `/`, `%`).
    Multiplicative,
    /// Unary operators (`-`, `!`, `~`, ...).
    Unary,
    /// Postfix operators (function calls, array subscript, member access).
    /// Highest precedence.
    Postfix,
}

/// The numeric level of each precedence class.
pub open spec fn spec_level(bp: BindingPower) -> u8 {
    match bp {
        BindingPower::Assignment => 0,
        BindingPower::Equality => 5,
        BindingPower::Relational => 7,
        BindingPower::Additive => 9,
        BindingPower::Multiplicative => 11,
        BindingPower::Unary => 13,
        BindingPower::Postfix => 19,
    }
}

impl BindingPower {
    /// The numeric level of this class.
    pub fn level(self) -> (r: u8)
        ensures
            r == spec_level(self),
    {
        match self {
            BindingPower::Assignment => 0,
            BindingPower::Equality => 5,
            BindingPower::Relational => 7,
            BindingPower::Additive => 9,
            BindingPower::Multiplicative => 11,
            BindingPower::Unary => 13,
            BindingPower::Postfix => 19,
        }
    }

    /// The left and right binding power pair for infix operators.
    ///
    /// Left-associative operators get `(n, n + 1)`, so the parser reduces
    /// the left side before continuing; right-associative operators get
    /// `(n + 1, n)`, so the parser recurses into the right side first.
    pub fn infix(self, right_associative: bool) -> (r: (u8, u8))
        ensures
            right_associative ==> r == (((spec_level(self) + 1) as u8, spec_level(self))),
            !right_associative ==> r == ((spec_level(self), (spec_level(self) + 1) as u8)),
    {
        let base = self.level();
        if right_associative {
            (base + 1, base)
        } else {
            (base, base + 1)
        }
    }

    /// The left binding power for postfix operators.
    pub fn postfix(self) -> (r: u8)
        ensures
            r == spec_level(self),
    {
        self.level()
    }

    /// The right binding power for prefix operators.
    pub fn prefix(self) -> (r: u8)
        ensures
            r == spec_level(self),
    {
        self.level()
    }
}

/// Higher precedence classes carry higher numeric levels: the hierarchy
/// postfix > unary > multiplicative > additive > relational > equality >
/// assignment is reflected in `spec_level`.
pub proof fn lemma_precedence_ordering()
    ensures
        spec_level(BindingPower::Postfix) > spec_level(BindingPower::Unary),
        spec_level(BindingPower::Unary) > spec_level(BindingPower::Multiplicative),
        spec_level(BindingPower::Multiplicative) > spec_level(BindingPower::Additive),
        spec_level(BindingPower::Additive) > spec_level(BindingPower::Relational),
        spec_level(BindingPower::Relational) > spec_level(BindingPower::Equality),
        spec_level(BindingPower::Equality) > spec_level(BindingPower::Assignment),
{
}

} // verus!
