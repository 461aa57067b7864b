use cfront::operator::{AssignOp, BinaryOp, BindingPower, UnaryOp};
use cfront::token::{StaticToken, TokenType};

fn st(t: StaticToken) -> TokenType {
    TokenType::Static(t)
}

#[test]
fn binary_op_from_tokens() {
    assert_eq!(BinaryOp::from_token_type(&st(StaticToken::Plus)), Some(BinaryOp::Add));
    assert_eq!(BinaryOp::from_token_type(&st(StaticToken::Minus)), Some(BinaryOp::Subtract));
    assert_eq!(BinaryOp::from_token_type(&st(StaticToken::Star)), Some(BinaryOp::Multiply));
    assert_eq!(BinaryOp::from_token_type(&st(StaticToken::Slash)), Some(BinaryOp::Divide));
    assert_eq!(BinaryOp::from_token_type(&st(StaticToken::LessThan)), Some(BinaryOp::LessThan));
    assert_eq!(BinaryOp::from_token_type(&st(StaticToken::EqualEqual)), Some(BinaryOp::Equal));
    assert_eq!(BinaryOp::from_token_type(&st(StaticToken::NotEqual)), Some(BinaryOp::NotEqual));
    assert_eq!(BinaryOp::from_token_type(&st(StaticToken::Equal)), None);
    assert_eq!(BinaryOp::from_token_type(&TokenType::Constant(1)), None);
}

#[test]
fn unary_op_from_tokens() {
    assert_eq!(UnaryOp::from_token_type(&st(StaticToken::Not)), Some(UnaryOp::Not));
    assert_eq!(UnaryOp::from_token_type(&st(StaticToken::Minus)), Some(UnaryOp::Negate));
    assert_eq!(UnaryOp::from_token_type(&st(StaticToken::Plus)), None);
    assert_eq!(UnaryOp::Not.binding_power(), BindingPower::Unary);
}

#[test]
fn assign_op_from_tokens() {
    assert_eq!(AssignOp::from_token_type(&st(StaticToken::Equal)), Some(AssignOp::Assign));
    assert_eq!(AssignOp::from_token_type(&st(StaticToken::PlusEqual)), Some(AssignOp::PlusAssign));
    assert_eq!(
        AssignOp::from_token_type(&st(StaticToken::RightShiftEqual)),
        Some(AssignOp::RShiftAssign),
    );
    assert_eq!(AssignOp::from_token_type(&st(StaticToken::EqualEqual)), None);
    assert_eq!(AssignOp::Assign.binding_power(), BindingPower::Assignment);
}

#[test]
fn binary_op_binding_powers() {
    assert_eq!(BinaryOp::Multiply.binding_power(), BindingPower::Multiplicative);
    assert_eq!(BinaryOp::Add.binding_power(), BindingPower::Additive);
    assert_eq!(BinaryOp::LessThanOrEqual.binding_power(), BindingPower::Relational);
    assert_eq!(BinaryOp::NotEqual.binding_power(), BindingPower::Equality);
}

#[test]
fn left_associative_classes_step_up_on_the_right() {
    for bp in [
        BindingPower::Comma,
        BindingPower::LogicalOr,
        BindingPower::LogicalAnd,
        BindingPower::BitwiseOr,
        BindingPower::BitwiseXor,
        BindingPower::BitwiseAnd,
        BindingPower::Equality,
        BindingPower::Relational,
        BindingPower::Shift,
        BindingPower::Additive,
        BindingPower::Multiplicative,
    ] {
        let (l, r) = bp.as_tuple();
        assert_eq!(r, l + 1);
    }
}

#[test]
fn right_associative_classes_do_not_step_up() {
    let (l, r) = BindingPower::Assignment.as_tuple();
    assert!(r <= l);
    let (l2, r2) = BindingPower::Conditional.as_tuple();
    assert!(r2 <= l2);
}

#[test]
fn prefix_and_postfix_are_one_sided() {
    assert_eq!(BindingPower::Unary.left_associative(), 0);
    assert_eq!(BindingPower::Unary.right_associative(), 16);
    assert_eq!(BindingPower::Postfix.left_associative(), 17);
    assert_eq!(BindingPower::Postfix.right_associative(), 0);
}

#[test]
fn infer_binding_power_from_tokens() {
    assert_eq!(
        BindingPower::infer_from_token_type(&st(StaticToken::Equal)),
        BindingPower::Assignment,
    );
    assert_eq!(
        BindingPower::infer_from_token_type(&st(StaticToken::Plus)),
        BindingPower::Additive,
    );
    assert_eq!(
        BindingPower::infer_from_token_type(&st(StaticToken::LParen)),
        BindingPower::Postfix,
    );
    assert_eq!(
        BindingPower::infer_from_token_type(&st(StaticToken::LBracket)),
        BindingPower::Postfix,
    );
    assert_eq!(BindingPower::infer_from_token_type(&st(StaticToken::Dot)), BindingPower::Postfix);
    assert_eq!(
        BindingPower::infer_from_token_type(&st(StaticToken::Semicolon)),
        BindingPower::Base,
    );
    assert_eq!(
        BindingPower::infer_from_token_type(&TokenType::Identifier(b"x".to_vec())),
        BindingPower::Base,
    );
}
