//! Precedence of operators: a total order over operator categories.

use crate::ast::{AssignOperator, BinaryOperator, PostfixOperator, PrefixOperator, UnaryOperator};
use vstd::prelude::*;

verus! {

/// Precedence of operators, weakest first.
#[derive(Debug, Clone, Copy, PartialEq, Eq, Structural)]
pub enum Precedence {
    /// Lowest precedence.
    Lowest,
    /// Assignment operators.
    Assign,
    /// Logical OR.
    Or,
    /// Logical AND.
    And,
    /// Equality operators.
    Equal,
    /// Comparison operators.
    Compare,
    /// Addition and subtraction.
    Sum,
    /// Multiplication and division.
    Product,
    /// Exponentiation.
    Exponent,
    /// Unary operators.
    Unary,
    /// Postfix operators.
    Postfix,
    /// Highest precedence.
    Highest,
}

impl Precedence {
    /// The place of a precedence in the order: a category binds tighter than
    /// another exactly when its rank is greater.
    pub open spec fn spec_rank(self) -> nat {
        match self {
            Precedence::Lowest => 0,
            Precedence::Assign => 1,
            Precedence::Or => 2,
            Precedence::And => 3,
            Precedence::Equal => 4,
            Precedence::Compare => 5,
            Precedence::Sum => 6,
            Precedence::Product => 7,
            Precedence::Exponent => 8,
            Precedence::Unary => 9,
            Precedence::Postfix => 10,
            Precedence::Highest => 11,
        }
    }

    /// The place of a precedence in the order.
    pub fn rank(self) -> (r: u8)
        ensures
            r == self.spec_rank(),
    {
        match self {
            Precedence::Lowest => 0,
            Precedence::Assign => 1,
            Precedence::Or => 2,
            Precedence::And => 3,
            Precedence::Equal => 4,
            Precedence::Compare => 5,
            Precedence::Sum => 6,
            Precedence::Product => 7,
            Precedence::Exponent => 8,
            Precedence::Unary => 9,
            Precedence::Postfix => 10,
            Precedence::Highest => 11,
        }
    }

    /// The precedence of rank `r`; `Highest` for every rank above the order.
    pub open spec fn spec_of_rank(r: nat) -> Precedence {
        if r == 0 {
            Precedence::Lowest
        } else if r == 1 {
            Precedence::Assign
        } else if r == 2 {
            Precedence::Or
        } else if r == 3 {
            Precedence::And
        } else if r == 4 {
            Precedence::Equal
        } else if r == 5 {
            Precedence::Compare
        } else if r == 6 {
            Precedence::Sum
        } else if r == 7 {
            Precedence::Product
        } else if r == 8 {
            Precedence::Exponent
        } else if r == 9 {
            Precedence::Unary
        } else if r == 10 {
            Precedence::Postfix
        } else {
            Precedence::Highest
        }
    }

    /// The next tighter precedence; `Highest` is its own successor.
    pub open spec fn spec_tighter(self) -> Precedence {
        Self::spec_of_rank(self.spec_rank() + 1)
    }

    /// The next tighter precedence; `Highest` is its own successor.
    #[verifier::when_used_as_spec(spec_tighter)]
    pub fn tighter(self) -> (p: Precedence)
        ensures
            p == self.spec_tighter(),
    {
        match self {
            Precedence::Lowest => Precedence::Assign,
            Precedence::Assign => Precedence::Or,
            Precedence::Or => Precedence::And,
            Precedence::And => Precedence::Equal,
            Precedence::Equal => Precedence::Compare,
            Precedence::Compare => Precedence::Sum,
            Precedence::Sum => Precedence::Product,
            Precedence::Product => Precedence::Exponent,
            Precedence::Exponent => Precedence::Unary,
            Precedence::Unary => Precedence::Postfix,
            Precedence::Postfix => Precedence::Highest,
            Precedence::Highest => Precedence::Highest,
        }
    }
}

/// The precedence of a binary operator.
pub open spec fn spec_precedence_of_binary_operator(operator: BinaryOperator) -> Precedence {
    match operator {
        BinaryOperator::Or => Precedence::Or,
        BinaryOperator::And => Precedence::And,
        BinaryOperator::EqualEqual | BinaryOperator::BangEqual => Precedence::Equal,
        BinaryOperator::Greater
        | BinaryOperator::GreaterEqual
        | BinaryOperator::Less
        | BinaryOperator::LessEqual => Precedence::Compare,
        BinaryOperator::Plus | BinaryOperator::Minus => Precedence::Sum,
        BinaryOperator::Star | BinaryOperator::Slash => Precedence::Product,
        BinaryOperator::StarStar | BinaryOperator::SlashSlash => Precedence::Exponent,
    }
}

/// Precedence of a binary operator.
#[verifier::when_used_as_spec(spec_precedence_of_binary_operator)]
pub fn precedence_of_binary_operator(operator: BinaryOperator) -> (p: Precedence)
    ensures
        p == spec_precedence_of_binary_operator(operator),
{
    match operator {
        BinaryOperator::Or => Precedence::Or,
        BinaryOperator::And => Precedence::And,
        BinaryOperator::EqualEqual => Precedence::Equal,
        BinaryOperator::BangEqual => Precedence::Equal,
        BinaryOperator::Greater => Precedence::Compare,
        BinaryOperator::GreaterEqual => Precedence::Compare,
        BinaryOperator::Less => Precedence::Compare,
        BinaryOperator::LessEqual => Precedence::Compare,
        BinaryOperator::Plus => Precedence::Sum,
        BinaryOperator::Minus => Precedence::Sum,
        BinaryOperator::Star => Precedence::Product,
        BinaryOperator::Slash => Precedence::Product,
        BinaryOperator::StarStar => Precedence::Exponent,
        BinaryOperator::SlashSlash => Precedence::Exponent,
    }
}

/// Precedence of a unary operator.
pub fn precedence_of_unary_operator(operator: UnaryOperator) -> (p: Precedence)
    ensures
        p == Precedence::Unary,
{
    match operator {
        UnaryOperator::Minus => Precedence::Unary,
        UnaryOperator::Bang => Precedence::Unary,
    }
}

/// Precedence of a postfix operator.
pub fn precedence_of_postfix_operator(operator: PostfixOperator) -> (p: Precedence)
    ensures
        p == Precedence::Postfix,
{
    match operator {
        PostfixOperator::PlusPlus => Precedence::Postfix,
        PostfixOperator::MinusMinus => Precedence::Postfix,
    }
}

/// Precedence of a prefix operator.
pub fn precedence_of_prefix_operator(operator: PrefixOperator) -> (p: Precedence)
    ensures
        p == Precedence::Unary,
{
    match operator {
        PrefixOperator::PlusPlus => Precedence::Unary,
        PrefixOperator::MinusMinus => Precedence::Unary,
    }
}

/// Precedence of an assignment operator.
pub fn precedence_of_assign_operator(operator: AssignOperator) -> (p: Precedence)
    ensures
        p == Precedence::Assign,
{
    match operator {
        AssignOperator::PlusEqual => Precedence::Assign,
        AssignOperator::MinusEqual => Precedence::Assign,
        AssignOperator::StarEqual => Precedence::Assign,
        AssignOperator::SlashEqual => Precedence::Assign,
    }
}

/// The order is total: two precedences of one rank are the same precedence,
/// and every precedence is found again from its rank.
pub proof fn lemma_rank_is_total_order(a: Precedence, b: Precedence)
    ensures
        a.spec_rank() == b.spec_rank() <==> a == b,
        a.spec_rank() < b.spec_rank() || a == b || b.spec_rank() < a.spec_rank(),
        Precedence::spec_of_rank(a.spec_rank()) == a,
{
}

/// The order of the categories, weakest first: assignment, `or`, `and`,
/// equality, comparison, sum, product, exponent, unary, postfix.
pub proof fn lemma_precedence_chain()
    ensures
        Precedence::Lowest.spec_rank() < Precedence::Assign.spec_rank(),
        Precedence::Assign.spec_rank() < Precedence::Or.spec_rank(),
        Precedence::Or.spec_rank() < Precedence::And.spec_rank(),
        Precedence::And.spec_rank() < Precedence::Equal.spec_rank(),
        Precedence::Equal.spec_rank() < Precedence::Compare.spec_rank(),
        Precedence::Compare.spec_rank() < Precedence::Sum.spec_rank(),
        Precedence::Sum.spec_rank() < Precedence::Product.spec_rank(),
        Precedence::Product.spec_rank() < Precedence::Exponent.spec_rank(),
        Precedence::Exponent.spec_rank() < Precedence::Unary.spec_rank(),
        Precedence::Unary.spec_rank() < Precedence::Postfix.spec_rank(),
        Precedence::Postfix.spec_rank() < Precedence::Highest.spec_rank(),
{
}

} // verus!
