use kennedy::ast::{AssignOperator, BinaryOperator, PostfixOperator, PrefixOperator, UnaryOperator};
use kennedy::precedence::{
    precedence_of_assign_operator, precedence_of_binary_operator, precedence_of_postfix_operator,
    precedence_of_prefix_operator, precedence_of_unary_operator, Precedence,
};

#[test]
fn binary_operators_have_their_category() {
    assert_eq!(precedence_of_binary_operator(BinaryOperator::Or), Precedence::Or);
    assert_eq!(precedence_of_binary_operator(BinaryOperator::And), Precedence::And);
    assert_eq!(precedence_of_binary_operator(BinaryOperator::EqualEqual), Precedence::Equal);
    assert_eq!(precedence_of_binary_operator(BinaryOperator::BangEqual), Precedence::Equal);
    assert_eq!(precedence_of_binary_operator(BinaryOperator::Greater), Precedence::Compare);
    assert_eq!(precedence_of_binary_operator(BinaryOperator::GreaterEqual), Precedence::Compare);
    assert_eq!(precedence_of_binary_operator(BinaryOperator::Less), Precedence::Compare);
    assert_eq!(precedence_of_binary_operator(BinaryOperator::LessEqual), Precedence::Compare);
    assert_eq!(precedence_of_binary_operator(BinaryOperator::Plus), Precedence::Sum);
    assert_eq!(precedence_of_binary_operator(BinaryOperator::Minus), Precedence::Sum);
    assert_eq!(precedence_of_binary_operator(BinaryOperator::Star), Precedence::Product);
    assert_eq!(precedence_of_binary_operator(BinaryOperator::Slash), Precedence::Product);
    assert_eq!(precedence_of_binary_operator(BinaryOperator::StarStar), Precedence::Exponent);
    assert_eq!(precedence_of_binary_operator(BinaryOperator::SlashSlash), Precedence::Exponent);
}

#[test]
fn other_operators_have_their_category() {
    assert_eq!(precedence_of_unary_operator(UnaryOperator::Minus), Precedence::Unary);
    assert_eq!(precedence_of_unary_operator(UnaryOperator::Bang), Precedence::Unary);
    assert_eq!(precedence_of_prefix_operator(PrefixOperator::PlusPlus), Precedence::Unary);
    assert_eq!(precedence_of_prefix_operator(PrefixOperator::MinusMinus), Precedence::Unary);
    assert_eq!(precedence_of_postfix_operator(PostfixOperator::PlusPlus), Precedence::Postfix);
    assert_eq!(precedence_of_postfix_operator(PostfixOperator::MinusMinus), Precedence::Postfix);
    assert_eq!(precedence_of_assign_operator(AssignOperator::PlusEqual), Precedence::Assign);
    assert_eq!(precedence_of_assign_operator(AssignOperator::MinusEqual), Precedence::Assign);
    assert_eq!(precedence_of_assign_operator(AssignOperator::StarEqual), Precedence::Assign);
    assert_eq!(precedence_of_assign_operator(AssignOperator::SlashEqual), Precedence::Assign);
}

#[test]
fn categories_are_ordered_weakest_first() {
    let order = [
        Precedence::Lowest,
        Precedence::Assign,
        Precedence::Or,
        Precedence::And,
        Precedence::Equal,
        Precedence::Compare,
        Precedence::Sum,
        Precedence::Product,
        Precedence::Exponent,
        Precedence::Unary,
        Precedence::Postfix,
        Precedence::Highest,
    ];
    for (i, p) in order.iter().enumerate() {
        assert_eq!(p.rank() as usize, i);
    }
    for pair in order.windows(2) {
        assert!(pair[0].rank() < pair[1].rank());
        assert_eq!(pair[0].tighter(), pair[1]);
    }
    assert_eq!(Precedence::Highest.tighter(), Precedence::Highest);
}
