//! The grammar, as functions from a token sequence and a position to a tree
//! and the position after it.
//!
//! Statements are told apart by one token of lookahead.  Expressions are
//! parsed by precedence climbing over the table in `precedence`: binary
//! operators group to the left, compound assignment groups to the right.
//! The first mismatch ends the parse with a syntax error at the offending
//! token.

use crate::ast::{
    PostfixOperator, PrefixOperator, SpecBlock, SpecExpression, SpecFunction, SpecParameter,
    SpecProgram, SpecStatement, Type, UnaryOperator,
};
use super::terminals::{
    assign_operator_of, binary_operator_of, covering, expect, forward, kind_at, spec_annotation,
    spec_ident, spec_parameter, spec_terminator, spec_type, unexpected, Parse,
};
use crate::error::SpecCompileError;
use crate::lexer::tokens::{SpecToken, SpecTokenType};
use crate::precedence::{spec_precedence_of_binary_operator, Precedence};
use vstd::prelude::*;

verus! {

broadcast use super::terminals::group_leaves_advance;

/// One or more parameters separated by commas, and the `)` after the last.
/// A comma must be followed by a parameter.
#[verifier::opaque]
pub open spec fn spec_parameter_list(t: Seq<SpecToken>, pos: int) -> Parse<Seq<SpecParameter>>
    decreases t.len() - pos,
{
    match spec_parameter(t, pos) {
        Err(e) => Err(e),
        Ok((param, next)) => if kind_at(t, next) == SpecTokenType::RightParen {
            Ok((seq![param], next + 1))
        } else {
            match expect(t, next, SpecTokenType::Comma) {
                Err(e) => Err(e),
                Ok(p) => match spec_parameter_list(t, p) {
                    Err(e) => Err(e),
                    Ok((rest, end)) => Ok((seq![param] + rest, end)),
                },
            }
        },
    }
}

/// `( name : type , ... )`
#[verifier::opaque]
pub open spec fn spec_parameters(t: Seq<SpecToken>, pos: int) -> Parse<Seq<SpecParameter>> {
    match expect(t, pos, SpecTokenType::LeftParen) {
        Err(e) => Err(e),
        Ok(p) => if kind_at(t, p) == SpecTokenType::RightParen {
            Ok((Seq::empty(), p + 1))
        } else {
            spec_parameter_list(t, p)
        },
    }
}

/// A parameter list, `:` and a return type.
#[verifier::opaque]
pub open spec fn spec_signature(t: Seq<SpecToken>, pos: int) -> Parse<(Seq<SpecParameter>, Type)> {
    match spec_parameters(t, pos) {
        Err(e) => Err(e),
        Ok((params, n1)) => match expect(t, n1, SpecTokenType::Colon) {
            Err(e) => Err(e),
            Ok(n2) => match spec_type(t, n2) {
                Err(e) => Err(e),
                Ok((return_type, n3)) => Ok(((params, return_type), n3)),
            },
        },
    }
}

/// An expression whose operators all bind at least as tightly as `min`.
#[verifier::opaque]
pub open spec fn spec_expression(t: Seq<SpecToken>, pos: int, min: Precedence) -> Parse<
    SpecExpression,
>
    decreases t.len() - pos, 8int,
{
    match forward(t, pos, spec_unary(t, pos)) {
        Err(e) => Err(e),
        Ok((left, next)) => spec_operators(t, next, left, min),
    }
}

/// The expression that `left` becomes when the operators at `pos` that bind
/// at least as tightly as `min` are applied to it.  The right operand of a
/// binary operator holds only operators that bind strictly tighter, so equal
/// operators group to the left; the right operand of a compound assignment
/// may hold further assignments, so they group to the right.
#[verifier::opaque]
pub open spec fn spec_operators(
    t: Seq<SpecToken>,
    pos: int,
    left: SpecExpression,
    min: Precedence,
) -> Parse<SpecExpression>
    decreases t.len() - pos, 0int,
{
    if binary_operator_of(kind_at(t, pos)) is Some && spec_precedence_of_binary_operator(
        binary_operator_of(kind_at(t, pos))->0,
    ).spec_rank() >= min.spec_rank() {
        let operator = binary_operator_of(kind_at(t, pos))->0;
        match forward(
            t,
            pos,
            spec_expression(t, pos + 1, spec_precedence_of_binary_operator(operator).spec_tighter()),
        ) {
            Err(e) => Err(e),
            Ok((right, next)) => spec_operators(
                t,
                next,
                SpecExpression::Binary { left: Box::new(left), operator, right: Box::new(right) },
                min,
            ),
        }
    } else if assign_operator_of(kind_at(t, pos)) is Some && Precedence::Assign.spec_rank()
        >= min.spec_rank() {
        let operator = assign_operator_of(kind_at(t, pos))->0;
        match forward(t, pos, spec_expression(t, pos + 1, Precedence::Assign)) {
            Err(e) => Err(e),
            Ok((right, next)) => spec_operators(
                t,
                next,
                SpecExpression::Assign { left: Box::new(left), operator, right: Box::new(right) },
                min,
            ),
        }
    } else {
        Ok((left, pos))
    }
}

/// Prefix operators, then a postfix expression.
#[verifier::opaque]
pub open spec fn spec_unary(t: Seq<SpecToken>, pos: int) -> Parse<SpecExpression>
    decreases t.len() - pos, 7int,
{
    match kind_at(t, pos) {
        SpecTokenType::Minus => match spec_unary(t, pos + 1) {
            Err(e) => Err(e),
            Ok((right, next)) => Ok(
                (
                    SpecExpression::Unary { operator: UnaryOperator::Minus, right: Box::new(right) },
                    next,
                ),
            ),
        },
        SpecTokenType::Bang => match spec_unary(t, pos + 1) {
            Err(e) => Err(e),
            Ok((right, next)) => Ok(
                (
                    SpecExpression::Unary { operator: UnaryOperator::Bang, right: Box::new(right) },
                    next,
                ),
            ),
        },
        SpecTokenType::PlusPlus => match spec_unary(t, pos + 1) {
            Err(e) => Err(e),
            Ok((right, next)) => Ok(
                (
                    SpecExpression::Prefix {
                        operator: PrefixOperator::PlusPlus,
                        right: Box::new(right),
                    },
                    next,
                ),
            ),
        },
        SpecTokenType::MinusMinus => match spec_unary(t, pos + 1) {
            Err(e) => Err(e),
            Ok((right, next)) => Ok(
                (
                    SpecExpression::Prefix {
                        operator: PrefixOperator::MinusMinus,
                        right: Box::new(right),
                    },
                    next,
                ),
            ),
        },
        _ => spec_postfix(t, pos),
    }
}

/// A primary expression and the postfix operators and calls after it.
#[verifier::opaque]
pub open spec fn spec_postfix(t: Seq<SpecToken>, pos: int) -> Parse<SpecExpression>
    decreases t.len() - pos, 6int,
{
    match forward(t, pos, spec_primary(t, pos)) {
        Err(e) => Err(e),
        Ok((left, next)) => spec_postfix_operators(t, next, left),
    }
}

/// The expression that `left` becomes when the postfix operators and
/// argument lists at `pos` are applied to it, left to right.
#[verifier::opaque]
pub open spec fn spec_postfix_operators(t: Seq<SpecToken>, pos: int, left: SpecExpression) -> Parse<
    SpecExpression,
>
    decreases t.len() - pos, 0int,
{
    match kind_at(t, pos) {
        SpecTokenType::PlusPlus => spec_postfix_operators(
            t,
            pos + 1,
            SpecExpression::Postfix { left: Box::new(left), operator: PostfixOperator::PlusPlus },
        ),
        SpecTokenType::MinusMinus => spec_postfix_operators(
            t,
            pos + 1,
            SpecExpression::Postfix { left: Box::new(left), operator: PostfixOperator::MinusMinus },
        ),
        SpecTokenType::LeftParen => match forward(t, pos, spec_arguments(t, pos + 1)) {
            Err(e) => Err(e),
            Ok((arguments, next)) => spec_postfix_operators(
                t,
                next,
                SpecExpression::Call { callee: Box::new(left), arguments },
            ),
        },
        _ => Ok((left, pos)),
    }
}

/// The arguments of a call, from after its `(` through its `)`.
#[verifier::opaque]
pub open spec fn spec_arguments(t: Seq<SpecToken>, pos: int) -> Parse<Seq<SpecExpression>>
    decreases t.len() - pos, 10int,
{
    if kind_at(t, pos) == SpecTokenType::RightParen {
        Ok((Seq::empty(), pos + 1))
    } else {
        spec_argument_list(t, pos)
    }
}

/// One or more arguments separated by commas, and the `)` after the last.
#[verifier::opaque]
pub open spec fn spec_argument_list(t: Seq<SpecToken>, pos: int) -> Parse<Seq<SpecExpression>>
    decreases t.len() - pos, 9int,
{
    match forward(t, pos, spec_expression(t, pos, Precedence::Lowest)) {
        Err(e) => Err(e),
        Ok((argument, next)) => if kind_at(t, next) == SpecTokenType::RightParen {
            Ok((seq![argument], next + 1))
        } else {
            match expect(t, next, SpecTokenType::Comma) {
                Err(e) => Err(e),
                Ok(p) => match spec_argument_list(t, p) {
                    Err(e) => Err(e),
                    Ok((rest, end)) => Ok((seq![argument] + rest, end)),
                },
            }
        },
    }
}

/// A literal, a name, a parenthesized expression or a function literal.
#[verifier::opaque]
pub open spec fn spec_primary(t: Seq<SpecToken>, pos: int) -> Parse<SpecExpression>
    decreases t.len() - pos, 5int,
{
    match kind_at(t, pos) {
        SpecTokenType::IntegerLiteral(value) => Ok(
            (SpecExpression::IntegerLiteral { value }, pos + 1),
        ),
        SpecTokenType::FloatLiteral(value) => Ok((SpecExpression::FloatLiteral { value }, pos + 1)),
        SpecTokenType::StringLiteral(value) => Ok(
            (SpecExpression::StringLiteral { value }, pos + 1),
        ),
        SpecTokenType::True => Ok((SpecExpression::BooleanLiteral { value: true }, pos + 1)),
        SpecTokenType::False => Ok((SpecExpression::BooleanLiteral { value: false }, pos + 1)),
        SpecTokenType::Null => Ok((SpecExpression::NullLiteral, pos + 1)),
        SpecTokenType::Ident(ident) => Ok((SpecExpression::Identifier { ident }, pos + 1)),
        SpecTokenType::LeftParen => match forward(
            t,
            pos,
            spec_expression(t, pos + 1, Precedence::Lowest),
        ) {
            Err(e) => Err(e),
            Ok((inner, next)) => match expect(t, next, SpecTokenType::RightParen) {
                Err(e) => Err(e),
                Ok(end) => Ok((SpecExpression::Grouping { expression: Box::new(inner) }, end)),
            },
        },
        SpecTokenType::Function => match forward(t, pos, spec_signature(t, pos + 1)) {
            Err(e) => Err(e),
            Ok(((params, return_type), p)) => match spec_block(t, p) {
                Err(e) => Err(e),
                Ok((body, end)) => Ok((SpecExpression::Function { params, return_type, body }, end)),
            },
        },
        _ => Err(unexpected(t, pos, "primary expression"@)),
    }
}

/// `{ statement ... }`
#[verifier::opaque]
pub open spec fn spec_block(t: Seq<SpecToken>, pos: int) -> Parse<SpecBlock>
    decreases t.len() - pos, 9int,
{
    match expect(t, pos, SpecTokenType::LeftBrace) {
        Err(e) => Err(e),
        Ok(p) => match spec_block_items(t, p) {
            Err(e) => Err(e),
            Ok((statements, end)) => Ok((SpecBlock { statements }, end)),
        },
    }
}

/// The statements of a block, from after its `{` through its `}`.
#[verifier::opaque]
pub open spec fn spec_block_items(t: Seq<SpecToken>, pos: int) -> Parse<Seq<SpecStatement>>
    decreases t.len() - pos, 12int,
{
    if kind_at(t, pos) == SpecTokenType::RightBrace {
        Ok((Seq::empty(), pos + 1))
    } else {
        match forward(t, pos, spec_statement(t, pos)) {
            Err(e) => Err(e),
            Ok((statement, next)) => match spec_block_items(t, next) {
                Err(e) => Err(e),
                Ok((rest, end)) => Ok((seq![statement] + rest, end)),
            },
        }
    }
}

/// A statement, told by its first token.
#[verifier::opaque]
pub open spec fn spec_statement(t: Seq<SpecToken>, pos: int) -> Parse<SpecStatement>
    decreases t.len() - pos, 11int,
{
    match kind_at(t, pos) {
        SpecTokenType::Let => spec_variable_declaration(t, pos),
        SpecTokenType::If => spec_if_statement(t, pos),
        SpecTokenType::For => spec_for_statement(t, pos),
        SpecTokenType::While => spec_while_statement(t, pos),
        SpecTokenType::Do => spec_do_until_statement(t, pos),
        SpecTokenType::Return => spec_return_statement(t, pos),
        SpecTokenType::LeftBrace => spec_block_statement(t, pos),
        _ => spec_simple_statement(t, pos, true),
    }
}

/// `let name = value;` or `let name: type = value;`
#[verifier::opaque]
pub open spec fn spec_variable_declaration(t: Seq<SpecToken>, pos: int) -> Parse<SpecStatement>
    decreases t.len() - pos, 10int,
{
    match expect(t, pos, SpecTokenType::Let) {
        Err(e) => Err(e),
        Ok(n1) => match spec_ident(t, n1) {
            Err(e) => Err(e),
            Ok((ident, n2)) => match spec_annotation(t, n2) {
                Err(e) => Err(e),
                Ok((var_type, n3)) => match expect(t, n3, SpecTokenType::Equal) {
                    Err(e) => Err(e),
                    Ok(n4) => match forward(t, pos, spec_expression(t, n4, Precedence::Lowest)) {
                        Err(e) => Err(e),
                        Ok((value, n5)) => match expect(t, n5, SpecTokenType::Semicolon) {
                            Err(e) => Err(e),
                            Ok(end) => Ok(
                                (
                                    SpecStatement::VariableDeclaration {
                                        ident,
                                        var_type,
                                        value,
                                        span: covering(t, pos, end),
                                    },
                                    end,
                                ),
                            ),
                        },
                    },
                },
            },
        },
    }
}

/// `( condition )`
#[verifier::opaque]
pub open spec fn spec_condition(t: Seq<SpecToken>, pos: int) -> Parse<SpecExpression>
    decreases t.len() - pos, 9int,
{
    match expect(t, pos, SpecTokenType::LeftParen) {
        Err(e) => Err(e),
        Ok(n1) => match forward(t, pos, spec_expression(t, n1, Precedence::Lowest)) {
            Err(e) => Err(e),
            Ok((condition, n2)) => match expect(t, n2, SpecTokenType::RightParen) {
                Err(e) => Err(e),
                Ok(end) => Ok((condition, end)),
            },
        },
    }
}

/// `if ( condition ) { ... }`, with an optional `else` that is followed by a
/// block or by another `if`.
#[verifier::opaque]
pub open spec fn spec_if_statement(t: Seq<SpecToken>, pos: int) -> Parse<SpecStatement>
    decreases t.len() - pos, 10int,
{
    match expect(t, pos, SpecTokenType::If) {
        Err(e) => Err(e),
        Ok(n1) => match forward(t, pos, spec_condition(t, n1)) {
            Err(e) => Err(e),
            Ok((condition, n2)) => match forward(t, pos, spec_block_statement(t, n2)) {
                Err(e) => Err(e),
                Ok((then_branch, n3)) => if kind_at(t, n3) == SpecTokenType::Else {
                    match forward(
                        t,
                        pos,
                        if kind_at(t, n3 + 1) == SpecTokenType::If {
                            spec_if_statement(t, n3 + 1)
                        } else {
                            spec_block_statement(t, n3 + 1)
                        },
                    ) {
                        Err(e) => Err(e),
                        Ok((else_branch, end)) => Ok(
                            (
                                SpecStatement::If {
                                    condition,
                                    then_branch: Box::new(then_branch),
                                    else_branch: Some(Box::new(else_branch)),
                                    span: covering(t, pos, end),
                                },
                                end,
                            ),
                        ),
                    }
                } else {
                    Ok(
                        (
                            SpecStatement::If {
                                condition,
                                then_branch: Box::new(then_branch),
                                else_branch: None,
                                span: covering(t, pos, n3),
                            },
                            n3,
                        ),
                    )
                },
            },
        },
    }
}

/// `while ( condition ) { ... }`
#[verifier::opaque]
pub open spec fn spec_while_statement(t: Seq<SpecToken>, pos: int) -> Parse<SpecStatement>
    decreases t.len() - pos, 10int,
{
    match expect(t, pos, SpecTokenType::While) {
        Err(e) => Err(e),
        Ok(n1) => match forward(t, pos, spec_condition(t, n1)) {
            Err(e) => Err(e),
            Ok((condition, n2)) => match spec_block(t, n2) {
                Err(e) => Err(e),
                Ok((body, end)) => Ok(
                    (SpecStatement::While { condition, body, span: covering(t, pos, end) }, end),
                ),
            },
        },
    }
}

/// `do { ... } until ( condition );`
#[verifier::opaque]
pub open spec fn spec_do_until_statement(t: Seq<SpecToken>, pos: int) -> Parse<SpecStatement>
    decreases t.len() - pos, 10int,
{
    match expect(t, pos, SpecTokenType::Do) {
        Err(e) => Err(e),
        Ok(n1) => match forward(t, pos, spec_block_statement(t, n1)) {
            Err(e) => Err(e),
            Ok((body, n2)) => match expect(t, n2, SpecTokenType::Until) {
                Err(e) => Err(e),
                Ok(n3) => match forward(t, pos, spec_condition(t, n3)) {
                    Err(e) => Err(e),
                    Ok((condition, n4)) => match expect(t, n4, SpecTokenType::Semicolon) {
                        Err(e) => Err(e),
                        Ok(end) => Ok(
                            (
                                SpecStatement::DoUntil {
                                    condition,
                                    body: Box::new(body),
                                    span: covering(t, pos, end),
                                },
                                end,
                            ),
                        ),
                    },
                },
            },
        },
    }
}

/// `for ( init condition ; increment ) { ... }`, where `init` is a variable
/// declaration or a simple statement (either ends in its own `;`) and
/// `increment` is a simple statement without a `;`.
#[verifier::opaque]
pub open spec fn spec_for_statement(t: Seq<SpecToken>, pos: int) -> Parse<SpecStatement>
    decreases t.len() - pos, 10int,
{
    match expect(t, pos, SpecTokenType::For) {
        Err(e) => Err(e),
        Ok(n1) => match expect(t, n1, SpecTokenType::LeftParen) {
            Err(e) => Err(e),
            Ok(n2) => match forward(
                t,
                pos,
                if kind_at(t, n2) == SpecTokenType::Let {
                    spec_variable_declaration(t, n2)
                } else {
                    spec_simple_statement(t, n2, true)
                },
            ) {
                Err(e) => Err(e),
                Ok((init, n3)) => match forward(
                    t,
                    pos,
                    spec_expression(t, n3, Precedence::Lowest),
                ) {
                    Err(e) => Err(e),
                    Ok((condition, n4)) => match expect(t, n4, SpecTokenType::Semicolon) {
                        Err(e) => Err(e),
                        Ok(n5) => match forward(t, pos, spec_simple_statement(t, n5, false)) {
                            Err(e) => Err(e),
                            Ok((increment, n6)) => match expect(t, n6, SpecTokenType::RightParen) {
                                Err(e) => Err(e),
                                Ok(n7) => match spec_block(t, n7) {
                                    Err(e) => Err(e),
                                    Ok((body, end)) => Ok(
                                        (
                                            SpecStatement::For {
                                                init: Box::new(init),
                                                condition,
                                                increment: Box::new(increment),
                                                body,
                                                span: covering(t, pos, end),
                                            },
                                            end,
                                        ),
                                    ),
                                },
                            },
                        },
                    },
                },
            },
        },
    }
}

/// `return;` or `return value;`
#[verifier::opaque]
pub open spec fn spec_return_statement(t: Seq<SpecToken>, pos: int) -> Parse<SpecStatement>
    decreases t.len() - pos, 10int,
{
    match expect(t, pos, SpecTokenType::Return) {
        Err(e) => Err(e),
        Ok(n1) => if kind_at(t, n1) == SpecTokenType::Semicolon {
            Ok((SpecStatement::Return { value: None, span: covering(t, pos, n1 + 1) }, n1 + 1))
        } else {
            match forward(t, pos, spec_expression(t, n1, Precedence::Lowest)) {
                Err(e) => Err(e),
                Ok((value, n2)) => match expect(t, n2, SpecTokenType::Semicolon) {
                    Err(e) => Err(e),
                    Ok(end) => Ok(
                        (SpecStatement::Return { value: Some(value), span: covering(t, pos, end) }, end),
                    ),
                },
            }
        },
    }
}

/// A block as a statement.
#[verifier::opaque]
pub open spec fn spec_block_statement(t: Seq<SpecToken>, pos: int) -> Parse<SpecStatement>
    decreases t.len() - pos, 10int,
{
    match spec_block(t, pos) {
        Err(e) => Err(e),
        Ok((block, end)) => Ok(
            (SpecStatement::Block { block: Box::new(block), span: covering(t, pos, end) }, end),
        ),
    }
}

/// An assignment `name = value` or a bare expression, followed by `;` when
/// `terminated`.  An expression that is a single name and is followed by `=`
/// is the target of an assignment.
#[verifier::opaque]
pub open spec fn spec_simple_statement(t: Seq<SpecToken>, pos: int, terminated: bool) -> Parse<
    SpecStatement,
>
    decreases t.len() - pos, 9int,
{
    match forward(t, pos, spec_expression(t, pos, Precedence::Lowest)) {
        Err(e) => Err(e),
        Ok((expression, n1)) => if expression is Identifier && kind_at(t, n1)
            == SpecTokenType::Equal {
            match forward(t, pos, spec_expression(t, n1 + 1, Precedence::Lowest)) {
                Err(e) => Err(e),
                Ok((value, n2)) => match spec_terminator(t, n2, terminated) {
                    Err(e) => Err(e),
                    Ok(end) => Ok(
                        (
                            SpecStatement::Assign {
                                ident: expression->ident,
                                value,
                                span: covering(t, pos, end),
                            },
                            end,
                        ),
                    ),
                },
            }
        } else {
            match spec_terminator(t, n1, terminated) {
                Err(e) => Err(e),
                Ok(end) => Ok(
                    (SpecStatement::Expression { expression, span: covering(t, pos, end) }, end),
                ),
            }
        },
    }
}

/// `func name ( parameters ) : type { ... }`
#[verifier::opaque]
pub open spec fn spec_function(t: Seq<SpecToken>, pos: int) -> Parse<SpecFunction> {
    match expect(t, pos, SpecTokenType::Function) {
        Err(e) => Err(e),
        Ok(n1) => match spec_ident(t, n1) {
            Err(e) => Err(e),
            Ok((ident, n2)) => match spec_signature(t, n2) {
                Err(e) => Err(e),
                Ok(((params, return_type), n3)) => match spec_block(t, n3) {
                    Err(e) => Err(e),
                    Ok((body, end)) => Ok(
                        (
                            SpecFunction {
                                ident,
                                params,
                                return_type,
                                body,
                                span: covering(t, pos, n3),
                            },
                            end,
                        ),
                    ),
                },
            },
        },
    }
}

/// The functions from `pos` up to the end mark.
#[verifier::opaque]
pub open spec fn spec_functions(t: Seq<SpecToken>, pos: int) -> Result<
    Seq<SpecFunction>,
    SpecCompileError,
>
    decreases t.len() - pos,
{
    if kind_at(t, pos) is Eof {
        Ok(Seq::empty())
    } else {
        match forward(t, pos, spec_function(t, pos)) {
            Err(e) => Err(e),
            Ok((function, next)) => match spec_functions(t, next) {
                Err(e) => Err(e),
                Ok(rest) => Ok(seq![function] + rest),
            },
        }
    }
}

/// The program that the tokens from `pos` on write, or the first syntax
/// error in them.
pub open spec fn spec_parse_from(t: Seq<SpecToken>, pos: int) -> Result<
    SpecProgram,
    SpecCompileError,
> {
    match spec_functions(t, pos) {
        Err(e) => Err(e),
        Ok(functions) => Ok(SpecProgram { functions }),
    }
}

/// The program that a token sequence writes, or the first syntax error.
pub open spec fn spec_parse(t: Seq<SpecToken>) -> Result<SpecProgram, SpecCompileError> {
    spec_parse_from(t, 0)
}

} // verus!
