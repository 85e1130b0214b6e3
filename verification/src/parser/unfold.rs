//! Every recursive rule of the grammar, unfolded once.
//!
//! The rules in `grammar` are opaque, so that a proof sees only the rules it
//! asks for.  Each lemma here states one rule's defining equation.

use super::grammar::{
    spec_argument_list, spec_arguments, spec_block, spec_block_items, spec_block_statement,
    spec_condition, spec_do_until_statement, spec_expression, spec_for_statement, spec_if_statement,
    spec_operators, spec_postfix, spec_postfix_operators, spec_primary, spec_return_statement,
    spec_signature, spec_simple_statement, spec_statement, spec_unary, spec_variable_declaration,
    spec_while_statement,
};
use super::terminals::{
    assign_operator_of, binary_operator_of, covering, expect, forward, kind_at, spec_annotation,
    spec_ident, spec_terminator, unexpected,
};
use crate::ast::{
    PostfixOperator, PrefixOperator, SpecBlock, SpecExpression, SpecStatement, UnaryOperator,
};
use crate::lexer::tokens::{SpecToken, SpecTokenType};
use crate::precedence::{spec_precedence_of_binary_operator, Precedence};
use vstd::prelude::*;

verus! {

/// The defining equation of `spec_expression`.
pub proof fn lemma_expression(t: Seq<SpecToken>, pos: int, min: Precedence)
    ensures
        spec_expression(t, pos, min) == ({
            match forward(t, pos, spec_unary(t, pos)) {
                Err(e) => Err(e),
                Ok((left, next)) => spec_operators(t, next, left, min),
            }
        }),
{
    reveal(spec_expression);
    reveal(spec_operators);
    reveal(spec_unary);
}

/// The defining equation of `spec_operators`.
pub proof fn lemma_operators(t: Seq<SpecToken>, pos: int, left: SpecExpression, min: Precedence)
    ensures
        spec_operators(t, pos, left, min) == ({
            if binary_operator_of(kind_at(t, pos)) is Some && spec_precedence_of_binary_operator(
                binary_operator_of(kind_at(t, pos))->0,
            ).spec_rank() >= min.spec_rank() {
                let operator = binary_operator_of(kind_at(t, pos))->0;
                match forward(
                    t,
                    pos,
                    spec_expression(t, pos + 1, spec_precedence_of_binary_operator(operator).spec_tighter()),
                ) {
                    Err(e) => Err(e),
                    Ok((right, next)) => spec_operators(
                        t,
                        next,
                        SpecExpression::Binary { left: Box::new(left), operator, right: Box::new(right) },
                        min,
                    ),
                }
            } else if assign_operator_of(kind_at(t, pos)) is Some && Precedence::Assign.spec_rank()
                >= min.spec_rank() {
                let operator = assign_operator_of(kind_at(t, pos))->0;
                match forward(t, pos, spec_expression(t, pos + 1, Precedence::Assign)) {
                    Err(e) => Err(e),
                    Ok((right, next)) => spec_operators(
                        t,
                        next,
                        SpecExpression::Assign { left: Box::new(left), operator, right: Box::new(right) },
                        min,
                    ),
                }
            } else {
                Ok((left, pos))
            }
        }),
{
    reveal(spec_expression);
    reveal(spec_operators);
}

/// The defining equation of `spec_unary`.
pub proof fn lemma_unary(t: Seq<SpecToken>, pos: int)
    ensures
        spec_unary(t, pos) == ({
            match kind_at(t, pos) {
                SpecTokenType::Minus => match spec_unary(t, pos + 1) {
                    Err(e) => Err(e),
                    Ok((right, next)) => Ok(
                        (
                            SpecExpression::Unary { operator: UnaryOperator::Minus, right: Box::new(right) },
                            next,
                        ),
                    ),
                },
                SpecTokenType::Bang => match spec_unary(t, pos + 1) {
                    Err(e) => Err(e),
                    Ok((right, next)) => Ok(
                        (
                            SpecExpression::Unary { operator: UnaryOperator::Bang, right: Box::new(right) },
                            next,
                        ),
                    ),
                },
                SpecTokenType::PlusPlus => match spec_unary(t, pos + 1) {
                    Err(e) => Err(e),
                    Ok((right, next)) => Ok(
                        (
                            SpecExpression::Prefix {
                                operator: PrefixOperator::PlusPlus,
                                right: Box::new(right),
                            },
                            next,
                        ),
                    ),
                },
                SpecTokenType::MinusMinus => match spec_unary(t, pos + 1) {
                    Err(e) => Err(e),
                    Ok((right, next)) => Ok(
                        (
                            SpecExpression::Prefix {
                                operator: PrefixOperator::MinusMinus,
                                right: Box::new(right),
                            },
                            next,
                        ),
                    ),
                },
                _ => spec_postfix(t, pos),
            }
        }),
{
    reveal(spec_unary);
    reveal(spec_postfix);
}

/// The defining equation of `spec_postfix`.
pub proof fn lemma_postfix(t: Seq<SpecToken>, pos: int)
    ensures
        spec_postfix(t, pos) == ({
            match forward(t, pos, spec_primary(t, pos)) {
                Err(e) => Err(e),
                Ok((left, next)) => spec_postfix_operators(t, next, left),
            }
        }),
{
    reveal(spec_postfix);
    reveal(spec_postfix_operators);
    reveal(spec_primary);
}

/// The defining equation of `spec_postfix_operators`.
pub proof fn lemma_postfix_operators(t: Seq<SpecToken>, pos: int, left: SpecExpression)
    ensures
        spec_postfix_operators(t, pos, left) == ({
            match kind_at(t, pos) {
                SpecTokenType::PlusPlus => spec_postfix_operators(
                    t,
                    pos + 1,
                    SpecExpression::Postfix { left: Box::new(left), operator: PostfixOperator::PlusPlus },
                ),
                SpecTokenType::MinusMinus => spec_postfix_operators(
                    t,
                    pos + 1,
                    SpecExpression::Postfix { left: Box::new(left), operator: PostfixOperator::MinusMinus },
                ),
                SpecTokenType::LeftParen => match forward(t, pos, spec_arguments(t, pos + 1)) {
                    Err(e) => Err(e),
                    Ok((arguments, next)) => spec_postfix_operators(
                        t,
                        next,
                        SpecExpression::Call { callee: Box::new(left), arguments },
                    ),
                },
                _ => Ok((left, pos)),
            }
        }),
{
    reveal(spec_postfix_operators);
    reveal(spec_arguments);
}

/// The defining equation of `spec_arguments`.
pub proof fn lemma_arguments(t: Seq<SpecToken>, pos: int)
    ensures
        spec_arguments(t, pos) == ({
            if kind_at(t, pos) == SpecTokenType::RightParen {
                Ok((Seq::empty(), pos + 1))
            } else {
                spec_argument_list(t, pos)
            }
        }),
{
    reveal(spec_arguments);
    reveal(spec_argument_list);
}

/// The defining equation of `spec_argument_list`.
pub proof fn lemma_argument_list(t: Seq<SpecToken>, pos: int)
    ensures
        spec_argument_list(t, pos) == ({
            match forward(t, pos, spec_expression(t, pos, Precedence::Lowest)) {
                Err(e) => Err(e),
                Ok((argument, next)) => if kind_at(t, next) == SpecTokenType::RightParen {
                    Ok((seq![argument], next + 1))
                } else {
                    match expect(t, next, SpecTokenType::Comma) {
                        Err(e) => Err(e),
                        Ok(p) => match spec_argument_list(t, p) {
                            Err(e) => Err(e),
                            Ok((rest, end)) => Ok((seq![argument] + rest, end)),
                        },
                    }
                },
            }
        }),
{
    reveal(spec_expression);
    reveal(spec_argument_list);
}

/// The defining equation of `spec_primary`.
pub proof fn lemma_primary(t: Seq<SpecToken>, pos: int)
    ensures
        spec_primary(t, pos) == ({
            match kind_at(t, pos) {
                SpecTokenType::IntegerLiteral(value) => Ok(
                    (SpecExpression::IntegerLiteral { value }, pos + 1),
                ),
                SpecTokenType::FloatLiteral(value) => Ok((SpecExpression::FloatLiteral { value }, pos + 1)),
                SpecTokenType::StringLiteral(value) => Ok(
                    (SpecExpression::StringLiteral { value }, pos + 1),
                ),
                SpecTokenType::True => Ok((SpecExpression::BooleanLiteral { value: true }, pos + 1)),
                SpecTokenType::False => Ok((SpecExpression::BooleanLiteral { value: false }, pos + 1)),
                SpecTokenType::Null => Ok((SpecExpression::NullLiteral, pos + 1)),
                SpecTokenType::Ident(ident) => Ok((SpecExpression::Identifier { ident }, pos + 1)),
                SpecTokenType::LeftParen => match forward(
                    t,
                    pos,
                    spec_expression(t, pos + 1, Precedence::Lowest),
                ) {
                    Err(e) => Err(e),
                    Ok((inner, next)) => match expect(t, next, SpecTokenType::RightParen) {
                        Err(e) => Err(e),
                        Ok(end) => Ok((SpecExpression::Grouping { expression: Box::new(inner) }, end)),
                    },
                },
                SpecTokenType::Function => match forward(t, pos, spec_signature(t, pos + 1)) {
                    Err(e) => Err(e),
                    Ok(((params, return_type), p)) => match spec_block(t, p) {
                        Err(e) => Err(e),
                        Ok((body, end)) => Ok((SpecExpression::Function { params, return_type, body }, end)),
                    },
                },
                _ => Err(unexpected(t, pos, "primary expression"@)),
            }
        }),
{
    reveal(spec_primary);
    reveal(spec_expression);
    reveal(spec_block);
}

/// The defining equation of `spec_block`.
pub proof fn lemma_block(t: Seq<SpecToken>, pos: int)
    ensures
        spec_block(t, pos) == ({
            match expect(t, pos, SpecTokenType::LeftBrace) {
                Err(e) => Err(e),
                Ok(p) => match spec_block_items(t, p) {
                    Err(e) => Err(e),
                    Ok((statements, end)) => Ok((SpecBlock { statements }, end)),
                },
            }
        }),
{
    reveal(spec_block);
    reveal(spec_block_items);
}

/// The defining equation of `spec_block_items`.
pub proof fn lemma_block_items(t: Seq<SpecToken>, pos: int)
    ensures
        spec_block_items(t, pos) == ({
            if kind_at(t, pos) == SpecTokenType::RightBrace {
                Ok((Seq::empty(), pos + 1))
            } else {
                match forward(t, pos, spec_statement(t, pos)) {
                    Err(e) => Err(e),
                    Ok((statement, next)) => match spec_block_items(t, next) {
                        Err(e) => Err(e),
                        Ok((rest, end)) => Ok((seq![statement] + rest, end)),
                    },
                }
            }
        }),
{
    reveal(spec_block_items);
    reveal(spec_statement);
}

/// The defining equation of `spec_statement`.
pub proof fn lemma_statement(t: Seq<SpecToken>, pos: int)
    ensures
        spec_statement(t, pos) == ({
            match kind_at(t, pos) {
                SpecTokenType::Let => spec_variable_declaration(t, pos),
                SpecTokenType::If => spec_if_statement(t, pos),
                SpecTokenType::For => spec_for_statement(t, pos),
                SpecTokenType::While => spec_while_statement(t, pos),
                SpecTokenType::Do => spec_do_until_statement(t, pos),
                SpecTokenType::Return => spec_return_statement(t, pos),
                SpecTokenType::LeftBrace => spec_block_statement(t, pos),
                _ => spec_simple_statement(t, pos, true),
            }
        }),
{
    reveal(spec_statement);
    reveal(spec_variable_declaration);
    reveal(spec_if_statement);
    reveal(spec_while_statement);
    reveal(spec_do_until_statement);
    reveal(spec_for_statement);
    reveal(spec_return_statement);
    reveal(spec_block_statement);
    reveal(spec_simple_statement);
}

/// The defining equation of `spec_variable_declaration`.
pub proof fn lemma_variable_declaration(t: Seq<SpecToken>, pos: int)
    ensures
        spec_variable_declaration(t, pos) == ({
            match expect(t, pos, SpecTokenType::Let) {
                Err(e) => Err(e),
                Ok(n1) => match spec_ident(t, n1) {
                    Err(e) => Err(e),
                    Ok((ident, n2)) => match spec_annotation(t, n2) {
                        Err(e) => Err(e),
                        Ok((var_type, n3)) => match expect(t, n3, SpecTokenType::Equal) {
                            Err(e) => Err(e),
                            Ok(n4) => match forward(t, pos, spec_expression(t, n4, Precedence::Lowest)) {
                                Err(e) => Err(e),
                                Ok((value, n5)) => match expect(t, n5, SpecTokenType::Semicolon) {
                                    Err(e) => Err(e),
                                    Ok(end) => Ok(
                                        (
                                            SpecStatement::VariableDeclaration {
                                                ident,
                                                var_type,
                                                value,
                                                span: covering(t, pos, end),
                                            },
                                            end,
                                        ),
                                    ),
                                },
                            },
                        },
                    },
                },
            }
        }),
{
    reveal(spec_variable_declaration);
    reveal(spec_expression);
}

/// The defining equation of `spec_condition`.
pub proof fn lemma_condition(t: Seq<SpecToken>, pos: int)
    ensures
        spec_condition(t, pos) == ({
            match expect(t, pos, SpecTokenType::LeftParen) {
                Err(e) => Err(e),
                Ok(n1) => match forward(t, pos, spec_expression(t, n1, Precedence::Lowest)) {
                    Err(e) => Err(e),
                    Ok((condition, n2)) => match expect(t, n2, SpecTokenType::RightParen) {
                        Err(e) => Err(e),
                        Ok(end) => Ok((condition, end)),
                    },
                },
            }
        }),
{
    reveal(spec_condition);
    reveal(spec_expression);
}

/// The defining equation of `spec_if_statement`.
pub proof fn lemma_if_statement(t: Seq<SpecToken>, pos: int)
    ensures
        spec_if_statement(t, pos) == ({
            match expect(t, pos, SpecTokenType::If) {
                Err(e) => Err(e),
                Ok(n1) => match forward(t, pos, spec_condition(t, n1)) {
                    Err(e) => Err(e),
                    Ok((condition, n2)) => match forward(t, pos, spec_block_statement(t, n2)) {
                        Err(e) => Err(e),
                        Ok((then_branch, n3)) => if kind_at(t, n3) == SpecTokenType::Else {
                            match forward(
                                t,
                                pos,
                                if kind_at(t, n3 + 1) == SpecTokenType::If {
                                    spec_if_statement(t, n3 + 1)
                                } else {
                                    spec_block_statement(t, n3 + 1)
                                },
                            ) {
                                Err(e) => Err(e),
                                Ok((else_branch, end)) => Ok(
                                    (
                                        SpecStatement::If {
                                            condition,
                                            then_branch: Box::new(then_branch),
                                            else_branch: Some(Box::new(else_branch)),
                                            span: covering(t, pos, end),
                                        },
                                        end,
                                    ),
                                ),
                            }
                        } else {
                            Ok(
                                (
                                    SpecStatement::If {
                                        condition,
                                        then_branch: Box::new(then_branch),
                                        else_branch: None,
                                        span: covering(t, pos, n3),
                                    },
                                    n3,
                                ),
                            )
                        },
                    },
                },
            }
        }),
{
    reveal(spec_condition);
    reveal(spec_if_statement);
    reveal(spec_block_statement);
}

/// The defining equation of `spec_while_statement`.
pub proof fn lemma_while_statement(t: Seq<SpecToken>, pos: int)
    ensures
        spec_while_statement(t, pos) == ({
            match expect(t, pos, SpecTokenType::While) {
                Err(e) => Err(e),
                Ok(n1) => match forward(t, pos, spec_condition(t, n1)) {
                    Err(e) => Err(e),
                    Ok((condition, n2)) => match spec_block(t, n2) {
                        Err(e) => Err(e),
                        Ok((body, end)) => Ok(
                            (SpecStatement::While { condition, body, span: covering(t, pos, end) }, end),
                        ),
                    },
                },
            }
        }),
{
    reveal(spec_while_statement);
    reveal(spec_block);
    reveal(spec_condition);
}

/// The defining equation of `spec_do_until_statement`.
pub proof fn lemma_do_until_statement(t: Seq<SpecToken>, pos: int)
    ensures
        spec_do_until_statement(t, pos) == ({
            match expect(t, pos, SpecTokenType::Do) {
                Err(e) => Err(e),
                Ok(n1) => match forward(t, pos, spec_block_statement(t, n1)) {
                    Err(e) => Err(e),
                    Ok((body, n2)) => match expect(t, n2, SpecTokenType::Until) {
                        Err(e) => Err(e),
                        Ok(n3) => match forward(t, pos, spec_condition(t, n3)) {
                            Err(e) => Err(e),
                            Ok((condition, n4)) => match expect(t, n4, SpecTokenType::Semicolon) {
                                Err(e) => Err(e),
                                Ok(end) => Ok(
                                    (
                                        SpecStatement::DoUntil {
                                            condition,
                                            body: Box::new(body),
                                            span: covering(t, pos, end),
                                        },
                                        end,
                                    ),
                                ),
                            },
                        },
                    },
                },
            }
        }),
{
    reveal(spec_do_until_statement);
    reveal(spec_condition);
    reveal(spec_block_statement);
}

/// The defining equation of `spec_for_statement`.
pub proof fn lemma_for_statement(t: Seq<SpecToken>, pos: int)
    ensures
        spec_for_statement(t, pos) == ({
            match expect(t, pos, SpecTokenType::For) {
                Err(e) => Err(e),
                Ok(n1) => match expect(t, n1, SpecTokenType::LeftParen) {
                    Err(e) => Err(e),
                    Ok(n2) => match forward(
                        t,
                        pos,
                        if kind_at(t, n2) == SpecTokenType::Let {
                            spec_variable_declaration(t, n2)
                        } else {
                            spec_simple_statement(t, n2, true)
                        },
                    ) {
                        Err(e) => Err(e),
                        Ok((init, n3)) => match forward(
                            t,
                            pos,
                            spec_expression(t, n3, Precedence::Lowest),
                        ) {
                            Err(e) => Err(e),
                            Ok((condition, n4)) => match expect(t, n4, SpecTokenType::Semicolon) {
                                Err(e) => Err(e),
                                Ok(n5) => match forward(t, pos, spec_simple_statement(t, n5, false)) {
                                    Err(e) => Err(e),
                                    Ok((increment, n6)) => match expect(t, n6, SpecTokenType::RightParen) {
                                        Err(e) => Err(e),
                                        Ok(n7) => match spec_block(t, n7) {
                                            Err(e) => Err(e),
                                            Ok((body, end)) => Ok(
                                                (
                                                    SpecStatement::For {
                                                        init: Box::new(init),
                                                        condition,
                                                        increment: Box::new(increment),
                                                        body,
                                                        span: covering(t, pos, end),
                                                    },
                                                    end,
                                                ),
                                            ),
                                        },
                                    },
                                },
                            },
                        },
                    },
                },
            }
        }),
{
    reveal(spec_for_statement);
    reveal(spec_expression);
    reveal(spec_block);
    reveal(spec_variable_declaration);
    reveal(spec_simple_statement);
}

/// The defining equation of `spec_return_statement`.
pub proof fn lemma_return_statement(t: Seq<SpecToken>, pos: int)
    ensures
        spec_return_statement(t, pos) == ({
            match expect(t, pos, SpecTokenType::Return) {
                Err(e) => Err(e),
                Ok(n1) => if kind_at(t, n1) == SpecTokenType::Semicolon {
                    Ok((SpecStatement::Return { value: None, span: covering(t, pos, n1 + 1) }, n1 + 1))
                } else {
                    match forward(t, pos, spec_expression(t, n1, Precedence::Lowest)) {
                        Err(e) => Err(e),
                        Ok((value, n2)) => match expect(t, n2, SpecTokenType::Semicolon) {
                            Err(e) => Err(e),
                            Ok(end) => Ok(
                                (SpecStatement::Return { value: Some(value), span: covering(t, pos, end) }, end),
                            ),
                        },
                    }
                },
            }
        }),
{
    reveal(spec_return_statement);
    reveal(spec_expression);
}

/// The defining equation of `spec_block_statement`.
pub proof fn lemma_block_statement(t: Seq<SpecToken>, pos: int)
    ensures
        spec_block_statement(t, pos) == ({
            match spec_block(t, pos) {
                Err(e) => Err(e),
                Ok((block, end)) => Ok(
                    (SpecStatement::Block { block: Box::new(block), span: covering(t, pos, end) }, end),
                ),
            }
        }),
{
    reveal(spec_block_statement);
    reveal(spec_block);
}

/// The defining equation of `spec_simple_statement`.
pub proof fn lemma_simple_statement(t: Seq<SpecToken>, pos: int, terminated: bool)
    ensures
        spec_simple_statement(t, pos, terminated) == ({
            match forward(t, pos, spec_expression(t, pos, Precedence::Lowest)) {
                Err(e) => Err(e),
                Ok((expression, n1)) => if expression is Identifier && kind_at(t, n1)
                    == SpecTokenType::Equal {
                    match forward(t, pos, spec_expression(t, n1 + 1, Precedence::Lowest)) {
                        Err(e) => Err(e),
                        Ok((value, n2)) => match spec_terminator(t, n2, terminated) {
                            Err(e) => Err(e),
                            Ok(end) => Ok(
                                (
                                    SpecStatement::Assign {
                                        ident: expression->ident,
                                        value,
                                        span: covering(t, pos, end),
                                    },
                                    end,
                                ),
                            ),
                        },
                    }
                } else {
                    match spec_terminator(t, n1, terminated) {
                        Err(e) => Err(e),
                        Ok(end) => Ok(
                            (SpecStatement::Expression { expression, span: covering(t, pos, end) }, end),
                        ),
                    }
                },
            }
        }),
{
    reveal(spec_simple_statement);
    reveal(spec_expression);
}

} // verus!
