//! Precedence and associativity, stated once and for every token sequence.
//!
//! Every expression that the grammar yields is grouped as the precedence
//! table says: tighter operators first, equal ones to the left, assignments
//! to the right.  This holds throughout a tree: below a prefix or postfix
//! operator, inside parentheses, in every argument of a call, and in every
//! statement of a function literal's body.

use super::grammar::{
    spec_argument_list, spec_arguments, spec_block, spec_block_items, spec_block_statement,
    spec_condition, spec_do_until_statement, spec_expression, spec_for_statement, spec_function,
    spec_functions, spec_if_statement, spec_operators, spec_parse, spec_postfix,
    spec_postfix_operators, spec_primary, spec_return_statement, spec_signature,
    spec_simple_statement, spec_statement, spec_unary, spec_variable_declaration,
    spec_while_statement,
};
use super::laws::{
    lemma_annotation_sound, lemma_arguments_sound, lemma_block_statement_sound,
    lemma_condition_sound, lemma_expect_after, lemma_expect_sound, lemma_expression_sound,
    lemma_function_sound, lemma_ident_sound, lemma_if_statement_sound, lemma_primary_sound,
    lemma_signature_sound, lemma_simple_statement_sound, lemma_statement_sound, lemma_step,
    lemma_unary_sound, lemma_variable_declaration_sound,
};
use super::terminals::{
    assign_operator_of, binary_operator_of, expect, kind_at, spec_annotation, spec_ident,
};
use super::unfold;
use crate::ast::{SpecExpression, SpecProgram, SpecStatement};
use crate::lexer::tokens::{SpecToken, SpecTokenType};
use crate::precedence::{spec_precedence_of_binary_operator, Precedence};
use vstd::prelude::*;

verus! {

broadcast use super::terminals::group_leaves_advance;

/// The rank of the operator at the top of an expression: of a binary
/// operator its precedence, of a compound assignment `Assign`.  An
/// expression with no operator at its top ranks above them all.
pub open spec fn top_rank(e: SpecExpression) -> nat {
    match e {
        SpecExpression::Binary { operator, .. } => spec_precedence_of_binary_operator(
            operator,
        ).spec_rank(),
        SpecExpression::Assign { .. } => Precedence::Assign.spec_rank(),
        _ => Precedence::Highest.spec_rank(),
    }
}

/// Whether an expression is an operand: it has no binary operator and no
/// assignment at its top.
pub open spec fn is_operand(e: SpecExpression) -> bool {
    top_rank(e) == Precedence::Highest.spec_rank()
}

/// Whether the operators of an expression group as the precedence table
/// says, throughout the tree.  The right operand of a binary operator holds
/// only operators that bind strictly tighter, and the left operand none that
/// binds weaker: tighter operators group first, and equal ones to the left.
/// The left operand of a compound assignment is no assignment: assignments
/// group to the right.  A prefix or postfix operator and a call apply to an
/// operand.  What stands inside parentheses, every argument of a call and
/// every statement of a function literal's body is grouped in turn.
pub open spec fn grouped(e: SpecExpression) -> bool
    decreases e, 0int,
{
    match e {
        SpecExpression::Binary { left, operator, right } => {
            &&& top_rank(*left) >= spec_precedence_of_binary_operator(operator).spec_rank()
            &&& top_rank(*right) > spec_precedence_of_binary_operator(operator).spec_rank()
            &&& grouped(*left)
            &&& grouped(*right)
        },
        SpecExpression::Assign { left, right, .. } => {
            &&& top_rank(*left) > Precedence::Assign.spec_rank()
            &&& grouped(*left)
            &&& grouped(*right)
        },
        SpecExpression::Unary { right, .. } => is_operand(*right) && grouped(*right),
        SpecExpression::Prefix { right, .. } => is_operand(*right) && grouped(*right),
        SpecExpression::Postfix { left, .. } => is_operand(*left) && grouped(*left),
        SpecExpression::Grouping { expression } => grouped(*expression),
        SpecExpression::Call { callee, arguments } => {
            &&& is_operand(*callee)
            &&& grouped(*callee)
            &&& all_grouped(arguments)
        },
        SpecExpression::Function { body, .. } => statements_grouped(body.statements),
        _ => true,
    }
}

/// Whether every expression of a sequence is grouped.
pub open spec fn all_grouped(expressions: Seq<SpecExpression>) -> bool
    decreases expressions, 1int,
{
    forall|i: int| 0 <= i < expressions.len() ==> grouped(#[trigger] expressions[i])
}

/// Whether every expression in a statement is grouped.
pub open spec fn statement_grouped(statement: SpecStatement) -> bool
    decreases statement, 0int,
{
    match statement {
        SpecStatement::VariableDeclaration { value, .. } => grouped(value),
        SpecStatement::Assign { value, .. } => grouped(value),
        SpecStatement::Return { value, .. } => match value {
            Some(e) => grouped(e),
            None => true,
        },
        SpecStatement::Block { block, .. } => statements_grouped(block.statements),
        SpecStatement::If { condition, then_branch, else_branch, .. } => {
            &&& grouped(condition)
            &&& statement_grouped(*then_branch)
            &&& match else_branch {
                Some(other) => statement_grouped(*other),
                None => true,
            }
        },
        SpecStatement::While { condition, body, .. } => {
            &&& grouped(condition)
            &&& statements_grouped(body.statements)
        },
        SpecStatement::Expression { expression, .. } => grouped(expression),
        SpecStatement::DoUntil { condition, body, .. } => {
            &&& grouped(condition)
            &&& statement_grouped(*body)
        },
        SpecStatement::For { init, condition, increment, body, .. } => {
            &&& statement_grouped(*init)
            &&& grouped(condition)
            &&& statement_grouped(*increment)
            &&& statements_grouped(body.statements)
        },
    }
}

/// Whether every expression in a sequence of statements is grouped.
pub open spec fn statements_grouped(statements: Seq<SpecStatement>) -> bool
    decreases statements, 1int,
{
    forall|i: int| 0 <= i < statements.len() ==> statement_grouped(#[trigger] statements[i])
}

/// Whether every expression in a program is grouped.
pub open spec fn program_grouped(program: SpecProgram) -> bool {
    forall|i: int|
        0 <= i < program.functions.len() ==> statements_grouped(
            (#[trigger] program.functions[i]).body.statements,
        )
}

/// Whether no operator that binds at least as tightly as `min` stands at
/// `pos`.
pub open spec fn no_operator(t: Seq<SpecToken>, pos: int, min: Precedence) -> bool {
    &&& !(binary_operator_of(kind_at(t, pos)) is Some && spec_precedence_of_binary_operator(
        binary_operator_of(kind_at(t, pos))->0,
    ).spec_rank() >= min.spec_rank())
    &&& !(assign_operator_of(kind_at(t, pos)) is Some && Precedence::Assign.spec_rank()
        >= min.spec_rank())
}

/// Whether the operator at `pos`, if there is one, may take `left` as its
/// left operand.
pub open spec fn takes(t: Seq<SpecToken>, pos: int, left: SpecExpression) -> bool {
    &&& binary_operator_of(kind_at(t, pos)) is Some ==> spec_precedence_of_binary_operator(
        binary_operator_of(kind_at(t, pos))->0,
    ).spec_rank() <= top_rank(left)
    &&& assign_operator_of(kind_at(t, pos)) is Some ==> top_rank(left)
        > Precedence::Assign.spec_rank()
}

/// A grouped expression before grouped expressions is a sequence of grouped
/// expressions.
pub proof fn lemma_all_grouped_from(first: SpecExpression, rest: Seq<SpecExpression>)
    requires
        grouped(first),
        all_grouped(rest),
    ensures
        all_grouped(seq![first] + rest),
{
    let all = seq![first] + rest;
    assert forall|i: int| 0 <= i < all.len() implies grouped(#[trigger] all[i]) by {
        if i > 0 {
            assert(all[i] == rest[i - 1]);
        }
    }
}

/// A grouped statement before grouped statements is a sequence of grouped
/// statements.
pub proof fn lemma_statements_grouped_from(first: SpecStatement, rest: Seq<SpecStatement>)
    requires
        statement_grouped(first),
        statements_grouped(rest),
    ensures
        statements_grouped(seq![first] + rest),
{
    let all = seq![first] + rest;
    assert forall|i: int| 0 <= i < all.len() implies statement_grouped(#[trigger] all[i]) by {
        if i > 0 {
            assert(all[i] == rest[i - 1]);
        }
    }
}

/// Precedence and associativity: an expression that the grammar yields is
/// grouped as the precedence table says, throughout, has no operator at its
/// top that binds weaker than `min`, and ends where no operator that binds
/// at least as tightly as `min` follows.
pub proof fn lemma_expression_grouped(t: Seq<SpecToken>, pos: int, min: Precedence)
    ensures
        spec_expression(t, pos, min) matches Ok((e, next)) ==> grouped(e) && top_rank(e)
            >= min.spec_rank() && no_operator(t, next, min),
    decreases t.len() - pos, 8int,
{
    unfold::lemma_expression(t, pos, min);
    lemma_unary_sound(t, pos);
    lemma_step(t, pos, pos, spec_unary(t, pos));
    lemma_unary_grouped(t, pos);
    match spec_unary(t, pos) {
        Err(_) => {},
        Ok((left, next)) => {
            lemma_operators_grouped(t, next, left, min);
        },
    }
}

/// The operators after `left`, which is grouped and which the operator at
/// `pos` may take: the result is grouped, and stops where no operator that
/// binds at least as tightly as `min` follows.
pub proof fn lemma_operators_grouped(
    t: Seq<SpecToken>,
    pos: int,
    left: SpecExpression,
    min: Precedence,
)
    requires
        pos < t.len(),
        grouped(left),
        takes(t, pos, left),
        top_rank(left) >= min.spec_rank() || no_operator(t, pos, min),
    ensures
        spec_operators(t, pos, left, min) matches Ok((e, next)) ==> grouped(e) && no_operator(
            t,
            next,
            min,
        ) && (top_rank(e) >= min.spec_rank() || e == left),
    decreases t.len() - pos, 0int,
{
    unfold::lemma_operators(t, pos, left, min);
    if binary_operator_of(kind_at(t, pos)) is Some && spec_precedence_of_binary_operator(
        binary_operator_of(kind_at(t, pos))->0,
    ).spec_rank() >= min.spec_rank() {
        let operator = binary_operator_of(kind_at(t, pos))->0;
        let tighter = spec_precedence_of_binary_operator(operator).spec_tighter();
        lemma_expression_sound(t, pos + 1, tighter);
        lemma_step(t, pos, pos + 1, spec_expression(t, pos + 1, tighter));
        lemma_expression_grouped(t, pos + 1, tighter);
        match spec_expression(t, pos + 1, tighter) {
            Err(_) => {},
            Ok((right, next)) => {
                let applied = SpecExpression::Binary {
                    left: Box::new(left),
                    operator,
                    right: Box::new(right),
                };
                assert(grouped(applied));
                lemma_operators_grouped(t, next, applied, min);
            },
        }
    } else if assign_operator_of(kind_at(t, pos)) is Some && Precedence::Assign.spec_rank()
        >= min.spec_rank() {
        let operator = assign_operator_of(kind_at(t, pos))->0;
        lemma_expression_sound(t, pos + 1, Precedence::Assign);
        lemma_step(t, pos, pos + 1, spec_expression(t, pos + 1, Precedence::Assign));
        lemma_expression_grouped(t, pos + 1, Precedence::Assign);
        match spec_expression(t, pos + 1, Precedence::Assign) {
            Err(_) => {},
            Ok((right, next)) => {
                let applied = SpecExpression::Assign {
                    left: Box::new(left),
                    operator,
                    right: Box::new(right),
                };
                assert(grouped(applied));
                lemma_operators_grouped(t, next, applied, min);
            },
        }
    }
}

/// What stands below a prefix operator is an operand, grouped throughout,
/// and so is the whole: a prefix operator binds tighter than every binary
/// operator and every assignment.
pub proof fn lemma_unary_grouped(t: Seq<SpecToken>, pos: int)
    ensures
        spec_unary(t, pos) matches Ok((e, _)) ==> is_operand(e) && grouped(e),
    decreases t.len() - pos, 7int,
{
    unfold::lemma_unary(t, pos);
    match kind_at(t, pos) {
        SpecTokenType::Minus
        | SpecTokenType::Bang
        | SpecTokenType::PlusPlus
        | SpecTokenType::MinusMinus => {
            lemma_unary_grouped(t, pos + 1);
        },
        _ => {
            lemma_postfix_grouped(t, pos);
        },
    }
}

/// A primary expression with its postfix operators and calls is an operand,
/// grouped throughout.
pub proof fn lemma_postfix_grouped(t: Seq<SpecToken>, pos: int)
    ensures
        spec_postfix(t, pos) matches Ok((e, _)) ==> is_operand(e) && grouped(e),
    decreases t.len() - pos, 6int,
{
    unfold::lemma_postfix(t, pos);
    lemma_primary_sound(t, pos);
    lemma_step(t, pos, pos, spec_primary(t, pos));
    lemma_primary_grouped(t, pos);
    match spec_primary(t, pos) {
        Err(_) => {},
        Ok((left, next)) => {
            lemma_postfix_operators_grouped(t, next, left);
        },
    }
}

/// Postfix operators and calls apply to an operand and give an operand;
/// every argument of a call is grouped.
pub proof fn lemma_postfix_operators_grouped(t: Seq<SpecToken>, pos: int, left: SpecExpression)
    requires
        pos < t.len(),
        is_operand(left),
        grouped(left),
    ensures
        spec_postfix_operators(t, pos, left) matches Ok((e, _)) ==> is_operand(e) && grouped(e),
    decreases t.len() - pos, 0int,
{
    unfold::lemma_postfix_operators(t, pos, left);
    match kind_at(t, pos) {
        SpecTokenType::PlusPlus => {
            lemma_postfix_operators_grouped(
                t,
                pos + 1,
                SpecExpression::Postfix {
                    left: Box::new(left),
                    operator: crate::ast::PostfixOperator::PlusPlus,
                },
            );
        },
        SpecTokenType::MinusMinus => {
            lemma_postfix_operators_grouped(
                t,
                pos + 1,
                SpecExpression::Postfix {
                    left: Box::new(left),
                    operator: crate::ast::PostfixOperator::MinusMinus,
                },
            );
        },
        SpecTokenType::LeftParen => {
            lemma_arguments_sound(t, pos + 1);
            lemma_step(t, pos, pos + 1, spec_arguments(t, pos + 1));
            lemma_arguments_grouped(t, pos + 1);
            match spec_arguments(t, pos + 1) {
                Err(_) => {},
                Ok((arguments, next)) => {
                    lemma_postfix_operators_grouped(
                        t,
                        next,
                        SpecExpression::Call { callee: Box::new(left), arguments },
                    );
                },
            }
        },
        _ => {},
    }
}

/// Every argument of a call is grouped.
pub proof fn lemma_arguments_grouped(t: Seq<SpecToken>, pos: int)
    ensures
        spec_arguments(t, pos) matches Ok((arguments, _)) ==> all_grouped(arguments),
    decreases t.len() - pos, 10int,
{
    unfold::lemma_arguments(t, pos);
    if kind_at(t, pos) != SpecTokenType::RightParen {
        lemma_argument_list_grouped(t, pos);
    }
}

/// Every argument of an argument list is grouped.
pub proof fn lemma_argument_list_grouped(t: Seq<SpecToken>, pos: int)
    ensures
        spec_argument_list(t, pos) matches Ok((arguments, _)) ==> all_grouped(arguments),
    decreases t.len() - pos, 9int,
{
    unfold::lemma_argument_list(t, pos);
    lemma_expression_sound(t, pos, Precedence::Lowest);
    lemma_step(t, pos, pos, spec_expression(t, pos, Precedence::Lowest));
    lemma_expression_grouped(t, pos, Precedence::Lowest);
    match spec_expression(t, pos, Precedence::Lowest) {
        Err(_) => {},
        Ok((argument, next)) => {
            if kind_at(t, next) != SpecTokenType::RightParen {
                lemma_expect_after(t, pos, next, SpecTokenType::Comma);
                match expect(t, next, SpecTokenType::Comma) {
                    Err(_) => {},
                    Ok(p) => {
                        lemma_argument_list_grouped(t, p);
                        match spec_argument_list(t, p) {
                            Err(_) => {},
                            Ok((rest, _)) => {
                                lemma_all_grouped_from(argument, rest);
                            },
                        }
                    },
                }
            } else {
                lemma_all_grouped_from(argument, Seq::empty());
                assert(seq![argument] + Seq::empty() =~= seq![argument]);
            }
        },
    }
}

/// A primary expression is an operand, grouped throughout: so is what
/// stands inside parentheses, and every statement of a function literal's
/// body.
pub proof fn lemma_primary_grouped(t: Seq<SpecToken>, pos: int)
    ensures
        spec_primary(t, pos) matches Ok((e, _)) ==> is_operand(e) && grouped(e),
    decreases t.len() - pos, 5int,
{
    unfold::lemma_primary(t, pos);
    match kind_at(t, pos) {
        SpecTokenType::LeftParen => {
            lemma_expression_sound(t, pos + 1, Precedence::Lowest);
            lemma_step(t, pos, pos + 1, spec_expression(t, pos + 1, Precedence::Lowest));
            lemma_expression_grouped(t, pos + 1, Precedence::Lowest);
        },
        SpecTokenType::Function => {
            lemma_signature_sound(t, pos + 1);
            lemma_step(t, pos, pos + 1, spec_signature(t, pos + 1));
            match spec_signature(t, pos + 1) {
                Err(_) => {},
                Ok((_, p)) => {
                    lemma_block_grouped(t, p);
                },
            }
        },
        _ => {},
    }
}

/// Every statement of a block is grouped.
pub proof fn lemma_block_grouped(t: Seq<SpecToken>, pos: int)
    ensures
        spec_block(t, pos) matches Ok((block, _)) ==> statements_grouped(block.statements),
    decreases t.len() - pos, 9int,
{
    unfold::lemma_block(t, pos);
    lemma_expect_sound(t, pos, SpecTokenType::LeftBrace);
    match expect(t, pos, SpecTokenType::LeftBrace) {
        Err(_) => {},
        Ok(p) => {
            lemma_block_items_grouped(t, p);
        },
    }
}

/// Every statement up to the `}` of a block is grouped.
pub proof fn lemma_block_items_grouped(t: Seq<SpecToken>, pos: int)
    ensures
        spec_block_items(t, pos) matches Ok((statements, _)) ==> statements_grouped(statements),
    decreases t.len() - pos, 12int,
{
    unfold::lemma_block_items(t, pos);
    if kind_at(t, pos) != SpecTokenType::RightBrace {
        lemma_statement_sound(t, pos);
        lemma_step(t, pos, pos, spec_statement(t, pos));
        lemma_statement_grouped(t, pos);
        match spec_statement(t, pos) {
            Err(_) => {},
            Ok((statement, next)) => {
                lemma_block_items_grouped(t, next);
                match spec_block_items(t, next) {
                    Err(_) => {},
                    Ok((rest, _)) => {
                        lemma_statements_grouped_from(statement, rest);
                    },
                }
            },
        }
    }
}

/// Every expression of a statement is grouped.
pub proof fn lemma_statement_grouped(t: Seq<SpecToken>, pos: int)
    ensures
        spec_statement(t, pos) matches Ok((statement, _)) ==> statement_grouped(statement),
    decreases t.len() - pos, 11int,
{
    unfold::lemma_statement(t, pos);
    match kind_at(t, pos) {
        SpecTokenType::Let => lemma_variable_declaration_grouped(t, pos),
        SpecTokenType::If => lemma_if_statement_grouped(t, pos),
        SpecTokenType::For => lemma_for_statement_grouped(t, pos),
        SpecTokenType::While => lemma_while_statement_grouped(t, pos),
        SpecTokenType::Do => lemma_do_until_statement_grouped(t, pos),
        SpecTokenType::Return => lemma_return_statement_grouped(t, pos),
        SpecTokenType::LeftBrace => lemma_block_statement_grouped(t, pos),
        _ => lemma_simple_statement_grouped(t, pos, true),
    }
}

/// The value of a variable declaration is grouped.
pub proof fn lemma_variable_declaration_grouped(t: Seq<SpecToken>, pos: int)
    ensures
        spec_variable_declaration(t, pos) matches Ok((statement, _)) ==> statement_grouped(
            statement,
        ),
    decreases t.len() - pos, 10int,
{
    unfold::lemma_variable_declaration(t, pos);
    lemma_expect_sound(t, pos, SpecTokenType::Let);
    match expect(t, pos, SpecTokenType::Let) {
        Err(_) => {},
        Ok(n1) => {
            lemma_ident_sound(t, n1);
            match spec_ident(t, n1) {
                Err(_) => {},
                Ok((_, n2)) => {
                    lemma_annotation_sound(t, n2);
                    match spec_annotation(t, n2) {
                        Err(_) => {},
                        Ok((_, n3)) => {
                            lemma_expect_after(t, pos, n3, SpecTokenType::Equal);
                            match expect(t, n3, SpecTokenType::Equal) {
                                Err(_) => {},
                                Ok(n4) => {
                                    lemma_expression_sound(t, n4, Precedence::Lowest);
                                    lemma_step(
                                        t,
                                        pos,
                                        n4,
                                        spec_expression(t, n4, Precedence::Lowest),
                                    );
                                    lemma_expression_grouped(t, n4, Precedence::Lowest);
                                },
                            }
                        },
                    }
                },
            }
        },
    }
}

/// A condition in parentheses is grouped.
pub proof fn lemma_condition_grouped(t: Seq<SpecToken>, pos: int)
    ensures
        spec_condition(t, pos) matches Ok((condition, _)) ==> grouped(condition),
    decreases t.len() - pos, 9int,
{
    unfold::lemma_condition(t, pos);
    lemma_expect_sound(t, pos, SpecTokenType::LeftParen);
    match expect(t, pos, SpecTokenType::LeftParen) {
        Err(_) => {},
        Ok(n1) => {
            lemma_expression_sound(t, n1, Precedence::Lowest);
            lemma_step(t, pos, n1, spec_expression(t, n1, Precedence::Lowest));
            lemma_expression_grouped(t, n1, Precedence::Lowest);
        },
    }
}

/// The condition and the branches of an `if` are grouped.
pub proof fn lemma_if_statement_grouped(t: Seq<SpecToken>, pos: int)
    ensures
        spec_if_statement(t, pos) matches Ok((statement, _)) ==> statement_grouped(statement),
    decreases t.len() - pos, 10int,
{
    unfold::lemma_if_statement(t, pos);
    lemma_expect_sound(t, pos, SpecTokenType::If);
    match expect(t, pos, SpecTokenType::If) {
        Err(_) => {},
        Ok(n1) => {
            lemma_condition_sound(t, n1);
            lemma_step(t, pos, n1, spec_condition(t, n1));
            lemma_condition_grouped(t, n1);
            match spec_condition(t, n1) {
                Err(_) => {},
                Ok((_, n2)) => {
                    lemma_block_statement_sound(t, n2);
                    lemma_step(t, pos, n2, spec_block_statement(t, n2));
                    lemma_block_statement_grouped(t, n2);
                    match spec_block_statement(t, n2) {
                        Err(_) => {},
                        Ok((_, n3)) => {
                            if kind_at(t, n3) == SpecTokenType::Else {
                                if kind_at(t, n3 + 1) == SpecTokenType::If {
                                    lemma_if_statement_sound(t, n3 + 1);
                                    lemma_step(t, pos, n3 + 1, spec_if_statement(t, n3 + 1));
                                    lemma_if_statement_grouped(t, n3 + 1);
                                } else {
                                    lemma_block_statement_sound(t, n3 + 1);
                                    lemma_step(t, pos, n3 + 1, spec_block_statement(t, n3 + 1));
                                    lemma_block_statement_grouped(t, n3 + 1);
                                }
                            }
                        },
                    }
                },
            }
        },
    }
}

/// The condition and the body of a `while` are grouped.
pub proof fn lemma_while_statement_grouped(t: Seq<SpecToken>, pos: int)
    ensures
        spec_while_statement(t, pos) matches Ok((statement, _)) ==> statement_grouped(statement),
    decreases t.len() - pos, 10int,
{
    unfold::lemma_while_statement(t, pos);
    lemma_expect_sound(t, pos, SpecTokenType::While);
    match expect(t, pos, SpecTokenType::While) {
        Err(_) => {},
        Ok(n1) => {
            lemma_condition_sound(t, n1);
            lemma_step(t, pos, n1, spec_condition(t, n1));
            lemma_condition_grouped(t, n1);
            match spec_condition(t, n1) {
                Err(_) => {},
                Ok((_, n2)) => {
                    lemma_block_grouped(t, n2);
                },
            }
        },
    }
}

/// The body and the condition of a `do` ... `until` are grouped.
pub proof fn lemma_do_until_statement_grouped(t: Seq<SpecToken>, pos: int)
    ensures
        spec_do_until_statement(t, pos) matches Ok((statement, _)) ==> statement_grouped(
            statement,
        ),
    decreases t.len() - pos, 10int,
{
    unfold::lemma_do_until_statement(t, pos);
    lemma_expect_sound(t, pos, SpecTokenType::Do);
    match expect(t, pos, SpecTokenType::Do) {
        Err(_) => {},
        Ok(n1) => {
            lemma_block_statement_sound(t, n1);
            lemma_step(t, pos, n1, spec_block_statement(t, n1));
            lemma_block_statement_grouped(t, n1);
            match spec_block_statement(t, n1) {
                Err(_) => {},
                Ok((_, n2)) => {
                    lemma_expect_after(t, pos, n2, SpecTokenType::Until);
                    match expect(t, n2, SpecTokenType::Until) {
                        Err(_) => {},
                        Ok(n3) => {
                            lemma_condition_sound(t, n3);
                            lemma_step(t, pos, n3, spec_condition(t, n3));
                            lemma_condition_grouped(t, n3);
                        },
                    }
                },
            }
        },
    }
}

/// The three parts of the head of a `for` and its body are grouped.
pub proof fn lemma_for_statement_grouped(t: Seq<SpecToken>, pos: int)
    ensures
        spec_for_statement(t, pos) matches Ok((statement, _)) ==> statement_grouped(statement),
    decreases t.len() - pos, 10int,
{
    unfold::lemma_for_statement(t, pos);
    lemma_expect_sound(t, pos, SpecTokenType::For);
    match expect(t, pos, SpecTokenType::For) {
        Err(_) => {},
        Ok(n1) => {
            lemma_expect_after(t, pos, n1, SpecTokenType::LeftParen);
            match expect(t, n1, SpecTokenType::LeftParen) {
                Err(_) => {},
                Ok(n2) => {
                    let init = if kind_at(t, n2) == SpecTokenType::Let {
                        spec_variable_declaration(t, n2)
                    } else {
                        spec_simple_statement(t, n2, true)
                    };
                    if kind_at(t, n2) == SpecTokenType::Let {
                        lemma_variable_declaration_sound(t, n2);
                        lemma_variable_declaration_grouped(t, n2);
                    } else {
                        lemma_simple_statement_sound(t, n2, true);
                        lemma_simple_statement_grouped(t, n2, true);
                    }
                    lemma_step(t, pos, n2, init);
                    match init {
                        Err(_) => {},
                        Ok((_, n3)) => {
                            lemma_expression_sound(t, n3, Precedence::Lowest);
                            lemma_step(t, pos, n3, spec_expression(t, n3, Precedence::Lowest));
                            lemma_expression_grouped(t, n3, Precedence::Lowest);
                            match spec_expression(t, n3, Precedence::Lowest) {
                                Err(_) => {},
                                Ok((_, n4)) => {
                                    lemma_expect_after(t, pos, n4, SpecTokenType::Semicolon);
                                    match expect(t, n4, SpecTokenType::Semicolon) {
                                        Err(_) => {},
                                        Ok(n5) => {
                                            lemma_for_tail_grouped(t, pos, n5);
                                        },
                                    }
                                },
                            }
                        },
                    }
                },
            }
        },
    }
}

/// The increment of a `for` that begins at `pos`, and the body after it,
/// are grouped; `n5` is where the increment begins.
proof fn lemma_for_tail_grouped(t: Seq<SpecToken>, pos: int, n5: int)
    requires
        pos < n5 < t.len(),
    ensures
        spec_simple_statement(t, n5, false) matches Ok((increment, n6)) ==> statement_grouped(
            increment,
        ) && pos < n6 < t.len() && (expect(t, n6, SpecTokenType::RightParen) matches Ok(n7)
            ==> (spec_block(t, n7) matches Ok((body, _)) ==> statements_grouped(
            body.statements,
        ))),
    decreases t.len() - n5, 10int,
{
    lemma_simple_statement_sound(t, n5, false);
    lemma_simple_statement_grouped(t, n5, false);
    match spec_simple_statement(t, n5, false) {
        Err(_) => {},
        Ok((_, n6)) => {
            lemma_expect_after(t, pos, n6, SpecTokenType::RightParen);
            match expect(t, n6, SpecTokenType::RightParen) {
                Err(_) => {},
                Ok(n7) => {
                    lemma_block_grouped(t, n7);
                },
            }
        },
    }
}

/// The value of a `return`, where it has one, is grouped.
pub proof fn lemma_return_statement_grouped(t: Seq<SpecToken>, pos: int)
    ensures
        spec_return_statement(t, pos) matches Ok((statement, _)) ==> statement_grouped(statement),
    decreases t.len() - pos, 10int,
{
    unfold::lemma_return_statement(t, pos);
    lemma_expect_sound(t, pos, SpecTokenType::Return);
    match expect(t, pos, SpecTokenType::Return) {
        Err(_) => {},
        Ok(n1) => {
            if kind_at(t, n1) != SpecTokenType::Semicolon {
                lemma_expression_sound(t, n1, Precedence::Lowest);
                lemma_step(t, pos, n1, spec_expression(t, n1, Precedence::Lowest));
                lemma_expression_grouped(t, n1, Precedence::Lowest);
            }
        },
    }
}

/// Every statement of a block that stands as a statement is grouped.
pub proof fn lemma_block_statement_grouped(t: Seq<SpecToken>, pos: int)
    ensures
        spec_block_statement(t, pos) matches Ok((statement, _)) ==> statement_grouped(statement),
    decreases t.len() - pos, 10int,
{
    unfold::lemma_block_statement(t, pos);
    lemma_block_grouped(t, pos);
}

/// The expression of an expression statement and the value of an assignment
/// are grouped.
pub proof fn lemma_simple_statement_grouped(t: Seq<SpecToken>, pos: int, terminated: bool)
    ensures
        spec_simple_statement(t, pos, terminated) matches Ok((statement, _)) ==> statement_grouped(
            statement,
        ),
    decreases t.len() - pos, 9int,
{
    unfold::lemma_simple_statement(t, pos, terminated);
    lemma_expression_sound(t, pos, Precedence::Lowest);
    lemma_step(t, pos, pos, spec_expression(t, pos, Precedence::Lowest));
    lemma_expression_grouped(t, pos, Precedence::Lowest);
    match spec_expression(t, pos, Precedence::Lowest) {
        Err(_) => {},
        Ok((expression, n1)) => {
            if expression is Identifier && kind_at(t, n1) == SpecTokenType::Equal {
                lemma_expression_sound(t, n1 + 1, Precedence::Lowest);
                lemma_step(t, pos, n1 + 1, spec_expression(t, n1 + 1, Precedence::Lowest));
                lemma_expression_grouped(t, n1 + 1, Precedence::Lowest);
            }
        },
    }
}

/// Every statement of a function's body is grouped.
pub proof fn lemma_function_grouped(t: Seq<SpecToken>, pos: int)
    ensures
        spec_function(t, pos) matches Ok((function, _)) ==> statements_grouped(
            function.body.statements,
        ),
{
    reveal(spec_function);
    match expect(t, pos, SpecTokenType::Function) {
        Err(_) => {},
        Ok(n1) => {
            match spec_ident(t, n1) {
                Err(_) => {},
                Ok((_, n2)) => {
                    match spec_signature(t, n2) {
                        Err(_) => {},
                        Ok((_, n3)) => {
                            lemma_block_grouped(t, n3);
                        },
                    }
                },
            }
        },
    }
}

/// Every function from `pos` on is grouped.
pub proof fn lemma_functions_grouped(t: Seq<SpecToken>, pos: int)
    ensures
        spec_functions(t, pos) matches Ok(functions) ==> program_grouped(
            SpecProgram { functions },
        ),
    decreases t.len() - pos,
{
    reveal(spec_functions);
    if !(kind_at(t, pos) is Eof) {
        lemma_function_sound(t, pos);
        lemma_step(t, pos, pos, spec_function(t, pos));
        lemma_function_grouped(t, pos);
        match spec_function(t, pos) {
            Err(_) => {},
            Ok((function, next)) => {
                lemma_functions_grouped(t, next);
                match spec_functions(t, next) {
                    Err(_) => {},
                    Ok(rest) => {
                        let all = seq![function] + rest;
                        assert forall|i: int| 0 <= i < all.len() implies statements_grouped(
                            (#[trigger] all[i]).body.statements,
                        ) by {
                            if i > 0 {
                                assert(all[i] == rest[i - 1]);
                                assert(statements_grouped(
                                    (SpecProgram { functions: rest }).functions[i - 1].body.statements,
                                ));
                            }
                        }
                    },
                }
            },
        }
    }
}

/// Precedence and associativity hold throughout a program: every
/// expression of a program that the grammar yields, at whatever depth, is
/// grouped as the precedence table says.
pub proof fn lemma_program_grouped(t: Seq<SpecToken>)
    ensures
        spec_parse(t) matches Ok(program) ==> program_grouped(program),
{
    lemma_functions_grouped(t, 0);
}

} // verus!
