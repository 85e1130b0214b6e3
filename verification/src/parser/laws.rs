//! What holds of the grammar, stated once and for every token sequence.
//!
//! Every rule that succeeds takes at least one token and stops before the
//! end mark.  Every rule that fails reports a syntax error at the span of a
//! token that lies at or after the place where the rule was applied: errors
//! point into the input, at the token that could not be taken.

use super::grammar::{
    spec_argument_list, spec_arguments, spec_block, spec_block_items, spec_block_statement,
    spec_condition, spec_do_until_statement, spec_expression, spec_for_statement, spec_function,
    spec_functions, spec_if_statement, spec_operators, spec_parameter_list, spec_parameters,
    spec_parse, spec_postfix, spec_postfix_operators, spec_primary, spec_return_statement,
    spec_signature, spec_simple_statement, spec_statement, spec_unary, spec_variable_declaration,
    spec_while_statement,
};
use super::terminals::{
    assign_operator_of, binary_operator_of, expect, forward, kind_at, span_at, spec_annotation,
    spec_ident, spec_parameter, spec_terminator, spec_type, unexpected, Parse,
};
use super::unfold;
use crate::ast::SpecExpression;
use crate::error::SpecCompileError;
use crate::lexer::tokens::{SpecToken, SpecTokenType};
use crate::precedence::{spec_precedence_of_binary_operator, Precedence};
use vstd::prelude::*;

verus! {

broadcast use super::terminals::group_leaves_advance;

/// Whether `e` is a syntax error at the span of a token at or after `from`.
pub open spec fn at_token(t: Seq<SpecToken>, from: int, e: SpecCompileError) -> bool {
    e matches SpecCompileError::SyntaxError(_, span) && exists|k: int|
        from <= k && (k < t.len() || k == from) && #[trigger] span_at(t, k) == span
}

/// Whether `r` is a result that a rule applied at `pos` may have: a tree
/// that ends after `pos` and before the end mark, or an error at a token at
/// or after `pos`.
pub open spec fn sound<T>(t: Seq<SpecToken>, pos: int, r: Parse<T>) -> bool {
    match r {
        Ok((_, next)) => pos < next < t.len(),
        Err(e) => at_token(t, pos, e),
    }
}

/// As `sound`, for a step that may take no token.
pub open spec fn sound_or_empty<T>(t: Seq<SpecToken>, pos: int, r: Parse<T>) -> bool {
    match r {
        Ok((_, next)) => pos == next || pos < next < t.len(),
        Err(e) => at_token(t, pos, e),
    }
}

/// The error for an unexpected token at `pos` is at that token.
pub proof fn lemma_unexpected(t: Seq<SpecToken>, pos: int, wanted: Seq<char>)
    ensures
        at_token(t, pos, unexpected(t, pos, wanted)),
{
    reveal(unexpected);
    assert(span_at(t, pos) == unexpected(t, pos, wanted)->SyntaxError_1);
}

/// An error at a token after `p` is an error at a token after any earlier
/// position.
pub proof fn lemma_later(t: Seq<SpecToken>, pos: int, p: int, e: SpecCompileError)
    requires
        pos <= p,
        p < t.len() || p == pos,
        at_token(t, p, e),
    ensures
        at_token(t, pos, e),
{
    let span = e->SyntaxError_1;
    let k = choose|k: int| p <= k && (k < t.len() || k == p) && #[trigger] span_at(t, k) == span;
    assert(span_at(t, k) == span);
}

/// A sound result of a rule applied at `p` is a sound result at any earlier
/// position, and passes `forward` unchanged.
pub proof fn lemma_step<T>(t: Seq<SpecToken>, pos: int, p: int, r: Parse<T>)
    requires
        pos <= p,
        p < t.len() || p == pos,
        sound(t, p, r),
    ensures
        sound(t, pos, r),
        forward(t, pos, r) == r,
{
    match r {
        Ok(_) => {},
        Err(e) => {
            lemma_later(t, pos, p, e);
        },
    }
}

/// A token that is taken is followed by the next position; one that is not is an error at it.
pub proof fn lemma_expect_sound(t: Seq<SpecToken>, pos: int, want: SpecTokenType)
    ensures
        match expect(t, pos, want) {
            Ok(next) => next == pos + 1 && 0 <= pos && pos + 1 < t.len(),
            Err(e) => at_token(t, pos, e),
        },
{
    reveal(expect);
    lemma_unexpected(t, pos, "token "@ + crate::lexer::tokens::spec_lexeme(want));
}

/// A result of `spec_ident` is sound.
pub proof fn lemma_ident_sound(t: Seq<SpecToken>, pos: int)
    ensures
        sound(t, pos, spec_ident(t, pos)),
{
    reveal(spec_ident);
    lemma_unexpected(t, pos, "ident"@);
}

/// A result of `spec_type` is sound.
pub proof fn lemma_type_sound(t: Seq<SpecToken>, pos: int)
    ensures
        sound(t, pos, spec_type(t, pos)),
{
    reveal(spec_type);
    lemma_unexpected(t, pos, "type"@);
}

/// An error in a parameter `name : type` is at the first of its three
/// tokens that is not what the grammar wants there: at the name, at the
/// colon, or at the type.
pub proof fn lemma_parameter_error_is_local(t: Seq<SpecToken>, pos: int)
    requires
        spec_parameter(t, pos) is Err,
    ensures
        spec_parameter(t, pos)->Err_0 matches SpecCompileError::SyntaxError(_, span) && span
            == span_at(
            t,
            if !(kind_at(t, pos) is Ident) {
                pos
            } else if kind_at(t, pos + 1) != SpecTokenType::Colon {
                pos + 1
            } else {
                pos + 2
            },
        ),
{
    reveal(spec_parameter);
    reveal(spec_ident);
    reveal(spec_type);
    reveal(expect);
    reveal(unexpected);
}

/// A result of `spec_parameter` is sound.
pub proof fn lemma_parameter_sound(t: Seq<SpecToken>, pos: int)
    ensures
        sound(t, pos, spec_parameter(t, pos)),
{
    reveal(spec_parameter);
    lemma_ident_sound(t, pos);
    lemma_expect_sound(t, pos + 1, SpecTokenType::Colon);
    lemma_type_sound(t, pos + 2);
    match spec_parameter(t, pos) {
        Ok(_) => {},
        Err(e) => {
            if spec_ident(t, pos) is Ok {
                if expect(t, pos + 1, SpecTokenType::Colon) is Ok {
                    lemma_later(t, pos, pos + 2, e);
                } else {
                    lemma_later(t, pos, pos + 1, e);
                }
            }
        },
    }
}

/// A result of `spec_annotation` is sound.
pub proof fn lemma_annotation_sound(t: Seq<SpecToken>, pos: int)
    ensures
        sound_or_empty(t, pos, spec_annotation(t, pos)),
{
    reveal(spec_annotation);
    if kind_at(t, pos) == SpecTokenType::Colon {
        lemma_type_sound(t, pos + 1);
        match spec_type(t, pos + 1) {
            Ok(_) => {},
            Err(e) => {
                lemma_later(t, pos, pos + 1, e);
            },
        }
    }
}

/// A result of `spec_parameter_list` is sound.
pub proof fn lemma_parameter_list_sound(t: Seq<SpecToken>, pos: int)
    ensures
        sound(t, pos, spec_parameter_list(t, pos)),
    decreases t.len() - pos,
{
    reveal(spec_parameter_list);
    lemma_parameter_sound(t, pos);
    match spec_parameter(t, pos) {
        Err(_) => {},
        Ok((_, next)) => {
            if kind_at(t, next) != SpecTokenType::RightParen {
                lemma_expect_sound(t, next, SpecTokenType::Comma);
                match expect(t, next, SpecTokenType::Comma) {
                    Err(e) => {
                        lemma_later(t, pos, next, e);
                    },
                    Ok(p) => {
                        lemma_parameter_list_sound(t, p);
                        lemma_step(t, pos, p, spec_parameter_list(t, p));
                    },
                }
            }
        },
    }
}

/// A result of `spec_parameters` is sound.
pub proof fn lemma_parameters_sound(t: Seq<SpecToken>, pos: int)
    ensures
        sound(t, pos, spec_parameters(t, pos)),
{
    reveal(spec_parameters);
    lemma_expect_sound(t, pos, SpecTokenType::LeftParen);
    match expect(t, pos, SpecTokenType::LeftParen) {
        Err(_) => {},
        Ok(p) => {
            if kind_at(t, p) != SpecTokenType::RightParen {
                lemma_parameter_list_sound(t, p);
                lemma_step(t, pos, p, spec_parameter_list(t, p));
            }
        },
    }
}

/// A result of `spec_signature` is sound.
pub proof fn lemma_signature_sound(t: Seq<SpecToken>, pos: int)
    ensures
        sound(t, pos, spec_signature(t, pos)),
{
    reveal(spec_signature);
    lemma_parameters_sound(t, pos);
    match spec_parameters(t, pos) {
        Err(_) => {},
        Ok((_, n1)) => {
            lemma_expect_sound(t, n1, SpecTokenType::Colon);
            match expect(t, n1, SpecTokenType::Colon) {
                Err(e) => {
                    lemma_later(t, pos, n1, e);
                },
                Ok(n2) => {
                    lemma_type_sound(t, n2);
                    match spec_type(t, n2) {
                        Err(e) => {
                            lemma_later(t, pos, n2, e);
                        },
                        Ok(_) => {},
                    }
                },
            }
        },
    }
}

/// The token that must follow at `p`, after a part of a rule applied at
/// `pos`: its error is an error of the rule.
pub proof fn lemma_expect_after(t: Seq<SpecToken>, pos: int, p: int, want: SpecTokenType)
    requires
        pos <= p,
        p < t.len() || p == pos,
    ensures
        match expect(t, p, want) {
            Ok(next) => next == p + 1 && 0 <= p && p + 1 < t.len(),
            Err(e) => at_token(t, pos, e),
        },
{
    lemma_expect_sound(t, p, want);
    match expect(t, p, want) {
        Ok(_) => {},
        Err(e) => {
            lemma_later(t, pos, p, e);
        },
    }
}

/// A result of `spec_expression` is sound.
pub proof fn lemma_expression_sound(t: Seq<SpecToken>, pos: int, min: Precedence)
    ensures
        sound(t, pos, spec_expression(t, pos, min)),
    decreases t.len() - pos, 8int,
{
    unfold::lemma_expression(t, pos, min);
    lemma_unary_sound(t, pos);
    lemma_step(t, pos, pos, spec_unary(t, pos));
    match spec_unary(t, pos) {
        Err(_) => {},
        Ok((left, next)) => {
            lemma_operators_sound(t, next, left, min);
            match spec_operators(t, next, left, min) {
                Ok(_) => {},
                Err(e) => {
                    lemma_later(t, pos, next, e);
                },
            }
        },
    }
}

/// The operators after an operand that ended at `pos`, which lies before
/// the end mark: the result ends at `pos` or after it.
pub proof fn lemma_operators_sound(
    t: Seq<SpecToken>,
    pos: int,
    left: SpecExpression,
    min: Precedence,
)
    requires
        pos < t.len(),
    ensures
        match spec_operators(t, pos, left, min) {
            Ok((_, next)) => pos <= next < t.len(),
            Err(e) => at_token(t, pos, e),
        },
    decreases t.len() - pos, 0int,
{
    unfold::lemma_operators(t, pos, left, min);
    if binary_operator_of(kind_at(t, pos)) is Some && spec_precedence_of_binary_operator(
        binary_operator_of(kind_at(t, pos))->0,
    ).spec_rank() >= min.spec_rank() {
        let operator = binary_operator_of(kind_at(t, pos))->0;
        let tighter = spec_precedence_of_binary_operator(operator).spec_tighter();
        lemma_expression_sound(t, pos + 1, tighter);
        lemma_step(t, pos, pos + 1, spec_expression(t, pos + 1, tighter));
        match spec_expression(t, pos + 1, tighter) {
            Err(_) => {},
            Ok((right, next)) => {
                let applied = SpecExpression::Binary {
                    left: Box::new(left),
                    operator,
                    right: Box::new(right),
                };
                lemma_operators_sound(t, next, applied, min);
                match spec_operators(t, next, applied, min) {
                    Ok(_) => {},
                    Err(e) => {
                        lemma_later(t, pos, next, e);
                    },
                }
            },
        }
    } else if assign_operator_of(kind_at(t, pos)) is Some && Precedence::Assign.spec_rank()
        >= min.spec_rank() {
        let operator = assign_operator_of(kind_at(t, pos))->0;
        lemma_expression_sound(t, pos + 1, Precedence::Assign);
        lemma_step(t, pos, pos + 1, spec_expression(t, pos + 1, Precedence::Assign));
        match spec_expression(t, pos + 1, Precedence::Assign) {
            Err(_) => {},
            Ok((right, next)) => {
                let applied = SpecExpression::Assign {
                    left: Box::new(left),
                    operator,
                    right: Box::new(right),
                };
                lemma_operators_sound(t, next, applied, min);
                match spec_operators(t, next, applied, min) {
                    Ok(_) => {},
                    Err(e) => {
                        lemma_later(t, pos, next, e);
                    },
                }
            },
        }
    }
}

/// A result of `spec_unary` is sound.
pub proof fn lemma_unary_sound(t: Seq<SpecToken>, pos: int)
    ensures
        sound(t, pos, spec_unary(t, pos)),
    decreases t.len() - pos, 7int,
{
    unfold::lemma_unary(t, pos);
    match kind_at(t, pos) {
        SpecTokenType::Minus
        | SpecTokenType::Bang
        | SpecTokenType::PlusPlus
        | SpecTokenType::MinusMinus => {
            lemma_unary_sound(t, pos + 1);
            lemma_step(t, pos, pos + 1, spec_unary(t, pos + 1));
        },
        _ => {
            lemma_postfix_sound(t, pos);
        },
    }
}

/// A result of `spec_postfix` is sound.
pub proof fn lemma_postfix_sound(t: Seq<SpecToken>, pos: int)
    ensures
        sound(t, pos, spec_postfix(t, pos)),
    decreases t.len() - pos, 6int,
{
    unfold::lemma_postfix(t, pos);
    lemma_primary_sound(t, pos);
    lemma_step(t, pos, pos, spec_primary(t, pos));
    match spec_primary(t, pos) {
        Err(_) => {},
        Ok((left, next)) => {
            lemma_postfix_operators_sound(t, next, left);
            match spec_postfix_operators(t, next, left) {
                Ok(_) => {},
                Err(e) => {
                    lemma_later(t, pos, next, e);
                },
            }
        },
    }
}

/// The postfix operators after an operand that ended at `pos`, which lies
/// before the end mark: the result ends at `pos` or after it.
pub proof fn lemma_postfix_operators_sound(t: Seq<SpecToken>, pos: int, left: SpecExpression)
    requires
        pos < t.len(),
    ensures
        match spec_postfix_operators(t, pos, left) {
            Ok((_, next)) => pos <= next < t.len(),
            Err(e) => at_token(t, pos, e),
        },
    decreases t.len() - pos, 0int,
{
    unfold::lemma_postfix_operators(t, pos, left);
    match kind_at(t, pos) {
        SpecTokenType::PlusPlus => {
            let applied = SpecExpression::Postfix {
                left: Box::new(left),
                operator: crate::ast::PostfixOperator::PlusPlus,
            };
            lemma_postfix_operators_sound(t, pos + 1, applied);
            match spec_postfix_operators(t, pos + 1, applied) {
                Ok(_) => {},
                Err(e) => {
                    lemma_later(t, pos, pos + 1, e);
                },
            }
        },
        SpecTokenType::MinusMinus => {
            let applied = SpecExpression::Postfix {
                left: Box::new(left),
                operator: crate::ast::PostfixOperator::MinusMinus,
            };
            lemma_postfix_operators_sound(t, pos + 1, applied);
            match spec_postfix_operators(t, pos + 1, applied) {
                Ok(_) => {},
                Err(e) => {
                    lemma_later(t, pos, pos + 1, e);
                },
            }
        },
        SpecTokenType::LeftParen => {
            lemma_arguments_sound(t, pos + 1);
            lemma_step(t, pos, pos + 1, spec_arguments(t, pos + 1));
            match spec_arguments(t, pos + 1) {
                Err(_) => {},
                Ok((arguments, next)) => {
                    let applied = SpecExpression::Call { callee: Box::new(left), arguments };
                    lemma_postfix_operators_sound(t, next, applied);
                    match spec_postfix_operators(t, next, applied) {
                        Ok(_) => {},
                        Err(e) => {
                            lemma_later(t, pos, next, e);
                        },
                    }
                },
            }
        },
        _ => {},
    }
}

/// A result of `spec_arguments` is sound.
pub proof fn lemma_arguments_sound(t: Seq<SpecToken>, pos: int)
    ensures
        sound(t, pos, spec_arguments(t, pos)),
    decreases t.len() - pos, 10int,
{
    unfold::lemma_arguments(t, pos);
    if kind_at(t, pos) != SpecTokenType::RightParen {
        lemma_argument_list_sound(t, pos);
    }
}

/// A result of `spec_argument_list` is sound.
pub proof fn lemma_argument_list_sound(t: Seq<SpecToken>, pos: int)
    ensures
        sound(t, pos, spec_argument_list(t, pos)),
    decreases t.len() - pos, 9int,
{
    unfold::lemma_argument_list(t, pos);
    lemma_expression_sound(t, pos, Precedence::Lowest);
    lemma_step(t, pos, pos, spec_expression(t, pos, Precedence::Lowest));
    match spec_expression(t, pos, Precedence::Lowest) {
        Err(_) => {},
        Ok((_, next)) => {
            if kind_at(t, next) != SpecTokenType::RightParen {
                lemma_expect_after(t, pos, next, SpecTokenType::Comma);
                match expect(t, next, SpecTokenType::Comma) {
                    Err(_) => {},
                    Ok(p) => {
                        lemma_argument_list_sound(t, p);
                        lemma_step(t, pos, p, spec_argument_list(t, p));
                    },
                }
            }
        },
    }
}

/// A result of `spec_primary` is sound.
pub proof fn lemma_primary_sound(t: Seq<SpecToken>, pos: int)
    ensures
        sound(t, pos, spec_primary(t, pos)),
    decreases t.len() - pos, 5int,
{
    unfold::lemma_primary(t, pos);
    lemma_unexpected(t, pos, "primary expression"@);
    match kind_at(t, pos) {
        SpecTokenType::LeftParen => {
            lemma_expression_sound(t, pos + 1, Precedence::Lowest);
            lemma_step(t, pos, pos + 1, spec_expression(t, pos + 1, Precedence::Lowest));
            match spec_expression(t, pos + 1, Precedence::Lowest) {
                Err(_) => {},
                Ok((_, next)) => {
                    lemma_expect_after(t, pos, next, SpecTokenType::RightParen);
                },
            }
        },
        SpecTokenType::Function => {
            lemma_signature_sound(t, pos + 1);
            lemma_step(t, pos, pos + 1, spec_signature(t, pos + 1));
            match spec_signature(t, pos + 1) {
                Err(_) => {},
                Ok((_, p)) => {
                    lemma_block_sound(t, p);
                    lemma_step(t, pos, p, spec_block(t, p));
                },
            }
        },
        _ => {},
    }
}

/// A result of `spec_block` is sound.
pub proof fn lemma_block_sound(t: Seq<SpecToken>, pos: int)
    ensures
        sound(t, pos, spec_block(t, pos)),
    decreases t.len() - pos, 9int,
{
    unfold::lemma_block(t, pos);
    lemma_expect_sound(t, pos, SpecTokenType::LeftBrace);
    match expect(t, pos, SpecTokenType::LeftBrace) {
        Err(_) => {},
        Ok(p) => {
            lemma_block_items_sound(t, p);
            lemma_step(t, pos, p, spec_block_items(t, p));
        },
    }
}

/// A result of `spec_block_items` is sound.
pub proof fn lemma_block_items_sound(t: Seq<SpecToken>, pos: int)
    ensures
        sound(t, pos, spec_block_items(t, pos)),
    decreases t.len() - pos, 12int,
{
    unfold::lemma_block_items(t, pos);
    if kind_at(t, pos) != SpecTokenType::RightBrace {
        lemma_statement_sound(t, pos);
        lemma_step(t, pos, pos, spec_statement(t, pos));
        match spec_statement(t, pos) {
            Err(_) => {},
            Ok((_, next)) => {
                lemma_block_items_sound(t, next);
                lemma_step(t, pos, next, spec_block_items(t, next));
            },
        }
    }
}

/// A result of `spec_statement` is sound.
pub proof fn lemma_statement_sound(t: Seq<SpecToken>, pos: int)
    ensures
        sound(t, pos, spec_statement(t, pos)),
    decreases t.len() - pos, 11int,
{
    unfold::lemma_statement(t, pos);
    match kind_at(t, pos) {
        SpecTokenType::Let => lemma_variable_declaration_sound(t, pos),
        SpecTokenType::If => lemma_if_statement_sound(t, pos),
        SpecTokenType::For => lemma_for_statement_sound(t, pos),
        SpecTokenType::While => lemma_while_statement_sound(t, pos),
        SpecTokenType::Do => lemma_do_until_statement_sound(t, pos),
        SpecTokenType::Return => lemma_return_statement_sound(t, pos),
        SpecTokenType::LeftBrace => lemma_block_statement_sound(t, pos),
        _ => lemma_simple_statement_sound(t, pos, true),
    }
}

/// A result of `spec_variable_declaration` is sound.
pub proof fn lemma_variable_declaration_sound(t: Seq<SpecToken>, pos: int)
    ensures
        sound(t, pos, spec_variable_declaration(t, pos)),
    decreases t.len() - pos, 10int,
{
    unfold::lemma_variable_declaration(t, pos);
    lemma_expect_sound(t, pos, SpecTokenType::Let);
    match expect(t, pos, SpecTokenType::Let) {
        Err(_) => {},
        Ok(n1) => {
            lemma_ident_sound(t, n1);
            lemma_step(t, pos, n1, spec_ident(t, n1));
            match spec_ident(t, n1) {
                Err(_) => {},
                Ok((_, n2)) => {
                    lemma_annotation_sound(t, n2);
                    match spec_annotation(t, n2) {
                        Err(e) => {
                            lemma_later(t, pos, n2, e);
                        },
                        Ok((_, n3)) => {
                            lemma_expect_after(t, pos, n3, SpecTokenType::Equal);
                            match expect(t, n3, SpecTokenType::Equal) {
                                Err(_) => {},
                                Ok(n4) => {
                                    lemma_expression_sound(t, n4, Precedence::Lowest);
                                    lemma_step(
                                        t,
                                        pos,
                                        n4,
                                        spec_expression(t, n4, Precedence::Lowest),
                                    );
                                    match spec_expression(t, n4, Precedence::Lowest) {
                                        Err(_) => {},
                                        Ok((_, n5)) => {
                                            lemma_expect_after(
                                                t,
                                                pos,
                                                n5,
                                                SpecTokenType::Semicolon,
                                            );
                                        },
                                    }
                                },
                            }
                        },
                    }
                },
            }
        },
    }
}

/// A result of `spec_condition` is sound.
pub proof fn lemma_condition_sound(t: Seq<SpecToken>, pos: int)
    ensures
        sound(t, pos, spec_condition(t, pos)),
    decreases t.len() - pos, 9int,
{
    unfold::lemma_condition(t, pos);
    lemma_expect_sound(t, pos, SpecTokenType::LeftParen);
    match expect(t, pos, SpecTokenType::LeftParen) {
        Err(_) => {},
        Ok(n1) => {
            lemma_expression_sound(t, n1, Precedence::Lowest);
            lemma_step(t, pos, n1, spec_expression(t, n1, Precedence::Lowest));
            match spec_expression(t, n1, Precedence::Lowest) {
                Err(_) => {},
                Ok((_, n2)) => {
                    lemma_expect_after(t, pos, n2, SpecTokenType::RightParen);
                },
            }
        },
    }
}

/// A result of `spec_if_statement` is sound.
pub proof fn lemma_if_statement_sound(t: Seq<SpecToken>, pos: int)
    ensures
        sound(t, pos, spec_if_statement(t, pos)),
    decreases t.len() - pos, 10int,
{
    unfold::lemma_if_statement(t, pos);
    lemma_expect_sound(t, pos, SpecTokenType::If);
    match expect(t, pos, SpecTokenType::If) {
        Err(_) => {},
        Ok(n1) => {
            lemma_condition_sound(t, n1);
            lemma_step(t, pos, n1, spec_condition(t, n1));
            match spec_condition(t, n1) {
                Err(_) => {},
                Ok((_, n2)) => {
                    lemma_block_statement_sound(t, n2);
                    lemma_step(t, pos, n2, spec_block_statement(t, n2));
                    match spec_block_statement(t, n2) {
                        Err(_) => {},
                        Ok((_, n3)) => {
                            if kind_at(t, n3) == SpecTokenType::Else {
                                if kind_at(t, n3 + 1) == SpecTokenType::If {
                                    lemma_if_statement_sound(t, n3 + 1);
                                    lemma_step(t, pos, n3 + 1, spec_if_statement(t, n3 + 1));
                                } else {
                                    lemma_block_statement_sound(t, n3 + 1);
                                    lemma_step(t, pos, n3 + 1, spec_block_statement(t, n3 + 1));
                                }
                            }
                        },
                    }
                },
            }
        },
    }
}

/// A result of `spec_while_statement` is sound.
pub proof fn lemma_while_statement_sound(t: Seq<SpecToken>, pos: int)
    ensures
        sound(t, pos, spec_while_statement(t, pos)),
    decreases t.len() - pos, 10int,
{
    unfold::lemma_while_statement(t, pos);
    lemma_expect_sound(t, pos, SpecTokenType::While);
    match expect(t, pos, SpecTokenType::While) {
        Err(_) => {},
        Ok(n1) => {
            lemma_condition_sound(t, n1);
            lemma_step(t, pos, n1, spec_condition(t, n1));
            match spec_condition(t, n1) {
                Err(_) => {},
                Ok((_, n2)) => {
                    lemma_block_sound(t, n2);
                    lemma_step(t, pos, n2, spec_block(t, n2));
                },
            }
        },
    }
}

/// A result of `spec_do_until_statement` is sound.
pub proof fn lemma_do_until_statement_sound(t: Seq<SpecToken>, pos: int)
    ensures
        sound(t, pos, spec_do_until_statement(t, pos)),
    decreases t.len() - pos, 10int,
{
    unfold::lemma_do_until_statement(t, pos);
    lemma_expect_sound(t, pos, SpecTokenType::Do);
    match expect(t, pos, SpecTokenType::Do) {
        Err(_) => {},
        Ok(n1) => {
            lemma_block_statement_sound(t, n1);
            lemma_step(t, pos, n1, spec_block_statement(t, n1));
            match spec_block_statement(t, n1) {
                Err(_) => {},
                Ok((_, n2)) => {
                    lemma_expect_after(t, pos, n2, SpecTokenType::Until);
                    match expect(t, n2, SpecTokenType::Until) {
                        Err(_) => {},
                        Ok(n3) => {
                            lemma_condition_sound(t, n3);
                            lemma_step(t, pos, n3, spec_condition(t, n3));
                            match spec_condition(t, n3) {
                                Err(_) => {},
                                Ok((_, n4)) => {
                                    lemma_expect_after(t, pos, n4, SpecTokenType::Semicolon);
                                },
                            }
                        },
                    }
                },
            }
        },
    }
}

/// A result of `spec_for_statement` is sound.
pub proof fn lemma_for_statement_sound(t: Seq<SpecToken>, pos: int)
    ensures
        sound(t, pos, spec_for_statement(t, pos)),
    decreases t.len() - pos, 10int,
{
    unfold::lemma_for_statement(t, pos);
    lemma_expect_sound(t, pos, SpecTokenType::For);
    match expect(t, pos, SpecTokenType::For) {
        Err(_) => {},
        Ok(n1) => {
            lemma_expect_after(t, pos, n1, SpecTokenType::LeftParen);
            match expect(t, n1, SpecTokenType::LeftParen) {
                Err(_) => {},
                Ok(n2) => {
                    let init = if kind_at(t, n2) == SpecTokenType::Let {
                        spec_variable_declaration(t, n2)
                    } else {
                        spec_simple_statement(t, n2, true)
                    };
                    if kind_at(t, n2) == SpecTokenType::Let {
                        lemma_variable_declaration_sound(t, n2);
                    } else {
                        lemma_simple_statement_sound(t, n2, true);
                    }
                    lemma_step(t, pos, n2, init);
                    match init {
                        Err(_) => {},
                        Ok((_, n3)) => {
                            lemma_expression_sound(t, n3, Precedence::Lowest);
                            lemma_step(t, pos, n3, spec_expression(t, n3, Precedence::Lowest));
                            match spec_expression(t, n3, Precedence::Lowest) {
                                Err(_) => {},
                                Ok((_, n4)) => {
                                    lemma_expect_after(t, pos, n4, SpecTokenType::Semicolon);
                                    match expect(t, n4, SpecTokenType::Semicolon) {
                                        Err(_) => {},
                                        Ok(n5) => {
                                            lemma_simple_statement_sound(t, n5, false);
                                            lemma_step(
                                                t,
                                                pos,
                                                n5,
                                                spec_simple_statement(t, n5, false),
                                            );
                                            match spec_simple_statement(t, n5, false) {
                                                Err(_) => {},
                                                Ok((_, n6)) => {
                                                    lemma_expect_after(
                                                        t,
                                                        pos,
                                                        n6,
                                                        SpecTokenType::RightParen,
                                                    );
                                                    match expect(
                                                        t,
                                                        n6,
                                                        SpecTokenType::RightParen,
                                                    ) {
                                                        Err(_) => {},
                                                        Ok(n7) => {
                                                            lemma_block_sound(t, n7);
                                                            lemma_step(
                                                                t,
                                                                pos,
                                                                n7,
                                                                spec_block(t, n7),
                                                            );
                                                        },
                                                    }
                                                },
                                            }
                                        },
                                    }
                                },
                            }
                        },
                    }
                },
            }
        },
    }
}

/// A result of `spec_return_statement` is sound.
pub proof fn lemma_return_statement_sound(t: Seq<SpecToken>, pos: int)
    ensures
        sound(t, pos, spec_return_statement(t, pos)),
    decreases t.len() - pos, 10int,
{
    unfold::lemma_return_statement(t, pos);
    lemma_expect_sound(t, pos, SpecTokenType::Return);
    match expect(t, pos, SpecTokenType::Return) {
        Err(_) => {},
        Ok(n1) => {
            if kind_at(t, n1) != SpecTokenType::Semicolon {
                lemma_expression_sound(t, n1, Precedence::Lowest);
                lemma_step(t, pos, n1, spec_expression(t, n1, Precedence::Lowest));
                match spec_expression(t, n1, Precedence::Lowest) {
                    Err(_) => {},
                    Ok((_, n2)) => {
                        lemma_expect_after(t, pos, n2, SpecTokenType::Semicolon);
                    },
                }
            }
        },
    }
}

/// A result of `spec_block_statement` is sound.
pub proof fn lemma_block_statement_sound(t: Seq<SpecToken>, pos: int)
    ensures
        sound(t, pos, spec_block_statement(t, pos)),
    decreases t.len() - pos, 10int,
{
    unfold::lemma_block_statement(t, pos);
    lemma_block_sound(t, pos);
}

/// A result of `spec_simple_statement` is sound.
pub proof fn lemma_simple_statement_sound(t: Seq<SpecToken>, pos: int, terminated: bool)
    ensures
        sound(t, pos, spec_simple_statement(t, pos, terminated)),
    decreases t.len() - pos, 9int,
{
    unfold::lemma_simple_statement(t, pos, terminated);
    reveal(spec_terminator);
    lemma_expression_sound(t, pos, Precedence::Lowest);
    lemma_step(t, pos, pos, spec_expression(t, pos, Precedence::Lowest));
    match spec_expression(t, pos, Precedence::Lowest) {
        Err(_) => {},
        Ok((expression, n1)) => {
            lemma_expect_after(t, pos, n1, SpecTokenType::Semicolon);
            if expression is Identifier && kind_at(t, n1) == SpecTokenType::Equal {
                lemma_expression_sound(t, n1 + 1, Precedence::Lowest);
                lemma_step(t, pos, n1 + 1, spec_expression(t, n1 + 1, Precedence::Lowest));
                match spec_expression(t, n1 + 1, Precedence::Lowest) {
                    Err(_) => {},
                    Ok((_, n2)) => {
                        lemma_expect_after(t, pos, n2, SpecTokenType::Semicolon);
                    },
                }
            }
        },
    }
}

/// A result of `spec_function` is sound.
pub proof fn lemma_function_sound(t: Seq<SpecToken>, pos: int)
    ensures
        sound(t, pos, spec_function(t, pos)),
{
    reveal(spec_function);
    lemma_expect_sound(t, pos, SpecTokenType::Function);
    match expect(t, pos, SpecTokenType::Function) {
        Err(_) => {},
        Ok(n1) => {
            lemma_ident_sound(t, n1);
            lemma_step(t, pos, n1, spec_ident(t, n1));
            match spec_ident(t, n1) {
                Err(_) => {},
                Ok((_, n2)) => {
                    lemma_signature_sound(t, n2);
                    lemma_step(t, pos, n2, spec_signature(t, n2));
                    match spec_signature(t, n2) {
                        Err(_) => {},
                        Ok((_, n3)) => {
                            lemma_block_sound(t, n3);
                            lemma_step(t, pos, n3, spec_block(t, n3));
                        },
                    }
                },
            }
        },
    }
}

/// Every error of the functions from `pos` on is at a token at or after
/// `pos`.
pub proof fn lemma_functions_sound(t: Seq<SpecToken>, pos: int)
    ensures
        spec_functions(t, pos) is Err ==> at_token(t, pos, spec_functions(t, pos)->Err_0),
    decreases t.len() - pos,
{
    reveal(spec_functions);
    if !(kind_at(t, pos) is Eof) {
        lemma_function_sound(t, pos);
        lemma_step(t, pos, pos, spec_function(t, pos));
        match spec_function(t, pos) {
            Err(_) => {},
            Ok((_, next)) => {
                lemma_functions_sound(t, next);
                match spec_functions(t, next) {
                    Ok(_) => {},
                    Err(e) => {
                        lemma_later(t, pos, next, e);
                    },
                }
            },
        }
    }
}

/// Errors point into the input: a parse that fails reports a syntax error
/// whose span is the span of one of the tokens.
pub proof fn lemma_errors_point_at_tokens(t: Seq<SpecToken>)
    requires
        t.len() > 0,
        spec_parse(t) is Err,
    ensures
        spec_parse(t)->Err_0 matches SpecCompileError::SyntaxError(_, span) && exists|k: int|
            0 <= k < t.len() && span == #[trigger] t[k].span,
{
    lemma_functions_sound(t, 0);
    let e = spec_functions(t, 0)->Err_0;
    let span = e->SyntaxError_1;
    let k = choose|k: int| 0 <= k && (k < t.len() || k == 0) && #[trigger] span_at(t, k) == span;
    assert(t[k].span == span);
}

} // verus!
