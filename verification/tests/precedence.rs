use cfront::precedence::BindingPower;

#[test]
fn test_left_associative_binding_power() {
    // Left-associative: (n, n+1)
    assert_eq!(BindingPower::Additive.infix(false), (9, 10));
    assert_eq!(BindingPower::Multiplicative.infix(false), (11, 12));
}

#[test]
fn test_right_associative_binding_power() {
    // Right-associative: (n+1, n)
    assert_eq!(BindingPower::Assignment.infix(true), (1, 0));
}

#[test]
fn test_postfix_binding_power() {
    assert_eq!(BindingPower::Postfix.postfix(), 19);
}

#[test]
fn test_precedence_ordering() {
    // Higher precedence should have higher numeric values
    assert!(BindingPower::Postfix > BindingPower::Unary);
    assert!(BindingPower::Unary > BindingPower::Multiplicative);
    assert!(BindingPower::Multiplicative > BindingPower::Additive);
    assert!(BindingPower::Additive > BindingPower::Relational);
    assert!(BindingPower::Relational > BindingPower::Equality);
    assert!(BindingPower::Equality > BindingPower::Assignment);
}

#[test]
fn test_prefix_binding_power() {
    assert_eq!(BindingPower::Unary.prefix(), 13);
}

#[test]
fn test_level_values() {
    assert_eq!(BindingPower::Assignment.level(), 0);
    assert_eq!(BindingPower::Equality.level(), 5);
    assert_eq!(BindingPower::Relational.level(), 7);
    assert_eq!(BindingPower::Additive.level(), 9);
    assert_eq!(BindingPower::Multiplicative.level(), 11);
    assert_eq!(BindingPower::Unary.level(), 13);
    assert_eq!(BindingPower::Postfix.level(), 19);
}
