//! Every recursive lowering rule, unfolded once.
//!
//! The rules in `rules` are opaque, so that a proof sees only the rules it
//! asks for.  Each lemma here states one rule's defining equation.

use super::builder::Slot;
use super::ir::{Instruction, Terminator, ValueType};
use super::rules::{
    assign_operation, entry, fall_through, find_function, finish_binary, finish_compound,
    finish_unary, logical_meet, logical_split, loop_back, loop_branch, loop_entry,
    lowered_arguments, lowered_assignment, lowered_binary, lowered_block, lowered_call,
    lowered_call_of, lowered_compound, lowered_condition, lowered_declaration, lowered_do_until,
    lowered_expression, lowered_for, lowered_identifier, lowered_if, lowered_literal,
    lowered_logical, lowered_return, lowered_routine, lowered_statement, lowered_statements,
    lowered_step, lowered_unary, lowered_while, names_function, returned, returns_nothing,
    same_type, semantic, signature_of, supported_parameters, supported_return, Callee, State, Unit,
};
use crate::ast::{SpecBlock, SpecExpression, SpecParameter, SpecStatement, Type};
use crate::error::Span;
use vstd::prelude::*;

verus! {

/// The defining equation of `lowered_expression`.
pub proof fn lemma_lowered_expression(s: State, e: SpecExpression, span: Span)
    ensures
        lowered_expression(s, e, span) == ({
            match e {
                SpecExpression::IntegerLiteral { value } => s.emitted(
                    Instruction::IntConst { value },
                    ValueType::Data(Type::Int),
                ),
                SpecExpression::FloatLiteral { value } => State {
                    function: s.function.add_float(value),
                    ..s
                }.emitted(
                    Instruction::FloatConst { literal: s.function.next_float() },
                    ValueType::Data(Type::Float),
                ),
                SpecExpression::StringLiteral { .. } => Err(
                    semantic("String values are not supported"@, span),
                ),
                SpecExpression::BooleanLiteral { value } => s.emitted(
                    Instruction::BoolConst { value },
                    ValueType::Data(Type::Bool),
                ),
                SpecExpression::NullLiteral => s.emitted(
                    Instruction::NullConst,
                    ValueType::Data(Type::Null),
                ),
                SpecExpression::Identifier { ident } => lowered_identifier(s, ident, span),
                SpecExpression::Binary { operator, .. } => if operator is And || operator is Or {
                    lowered_logical(s, e, span)
                } else {
                    lowered_binary(s, e, span)
                },
                SpecExpression::Unary { .. } => lowered_unary(s, e, span),
                SpecExpression::Grouping { expression } => lowered_expression(s, *expression, span),
                SpecExpression::Function { .. } => lowered_literal(s, e, span),
                SpecExpression::Call { .. } => lowered_call(s, e, span),
                SpecExpression::Postfix { left, operator } => lowered_step(
                    s,
                    *left,
                    operator is PlusPlus,
                    false,
                    span,
                ),
                SpecExpression::Prefix { operator, right } => lowered_step(
                    s,
                    *right,
                    operator is PlusPlus,
                    true,
                    span,
                ),
                SpecExpression::Assign { .. } => lowered_compound(s, e, span),
            }
        }),
{
    reveal(lowered_expression);
    reveal(lowered_binary);
    reveal(lowered_logical);
    reveal(lowered_unary);
    reveal(lowered_compound);
    reveal(lowered_call);
    reveal(lowered_literal);
}

/// The defining equation of `lowered_binary`.
pub proof fn lemma_lowered_binary(s: State, e: SpecExpression, span: Span)
    ensures
        lowered_binary(s, e, span) == ({
            match e {
                SpecExpression::Binary { left, operator, right } => match lowered_expression(
                    s,
                    *left,
                    span,
                ) {
                    Err(e) => Err(e),
                    Ok((s1, l)) => match lowered_expression(s1, *right, span) {
                        Err(e) => Err(e),
                        Ok((s2, r)) => finish_binary(s2, operator, l, r, span),
                    },
                },
                _ => Err(semantic("Not a binary expression"@, span)),
            }
        }),
{
    reveal(lowered_binary);
    reveal(lowered_expression);
}

/// The defining equation of `lowered_logical`.
pub proof fn lemma_lowered_logical(s: State, e: SpecExpression, span: Span)
    ensures
        lowered_logical(s, e, span) == ({
            match e {
                SpecExpression::Binary { left, operator, right } => match lowered_expression(
                    s,
                    *left,
                    span,
                ) {
                    Err(e) => Err(e),
                    Ok((s1, l)) => if l.value_type != ValueType::Data(Type::Bool) {
                        Err(semantic("Operand is not a bool"@, span))
                    } else {
                        match lowered_expression(logical_split(s1, l, operator is Or), *right, span) {
                            Err(e) => Err(e),
                            Ok((s2, r)) => if r.value_type != ValueType::Data(Type::Bool) {
                                Err(semantic("Operand is not a bool"@, span))
                            } else {
                                logical_meet(
                                    s2,
                                    s1.function.next_slot(),
                                    (s1.function.next_block() + 1) as usize,
                                    r,
                                )
                            },
                        }
                    },
                },
                _ => Err(semantic("Not a binary expression"@, span)),
            }
        }),
{
    reveal(lowered_logical);
    reveal(lowered_expression);
}

/// The defining equation of `lowered_unary`.
pub proof fn lemma_lowered_unary(s: State, e: SpecExpression, span: Span)
    ensures
        lowered_unary(s, e, span) == ({
            match e {
                SpecExpression::Unary { operator, right } => match lowered_expression(s, *right, span) {
                    Err(e) => Err(e),
                    Ok((s1, r)) => finish_unary(s1, operator, r, span),
                },
                _ => Err(semantic("Not a unary expression"@, span)),
            }
        }),
{
    reveal(lowered_unary);
    reveal(lowered_expression);
}

/// The defining equation of `lowered_compound`.
pub proof fn lemma_lowered_compound(s: State, e: SpecExpression, span: Span)
    ensures
        lowered_compound(s, e, span) == ({
            match e {
                SpecExpression::Assign { left, operator, right } => match *left {
                    SpecExpression::Identifier { ident } => match s.function.lookup(ident) {
                        None => Err(semantic("Unknown identifier: "@ + ident, span)),
                        Some(slot) => match lowered_expression(s, *right, span) {
                            Err(e) => Err(e),
                            Ok((s1, r)) => finish_compound(s1, slot, assign_operation(operator), r, span),
                        },
                    },
                    _ => Err(semantic("Invalid assignment target"@, span)),
                },
                _ => Err(semantic("Not an assignment"@, span)),
            }
        }),
{
    reveal(lowered_compound);
    reveal(lowered_expression);
}

/// The defining equation of `lowered_call`.
pub proof fn lemma_lowered_call(s: State, e: SpecExpression, span: Span)
    ensures
        lowered_call(s, e, span) == ({
            match e {
                SpecExpression::Call { callee, arguments } => if names_function(s, *callee) {
                    lowered_call_of(
                        s,
                        Callee::Direct { function: find_function(s.unit.names, callee->ident, 0)->0 },
                        e,
                        span,
                    )
                } else {
                    match lowered_expression(s, *callee, span) {
                        Err(e) => Err(e),
                        Ok((s1, c)) => match c.value_type {
                            ValueType::Function(function) => lowered_call_of(
                                s1,
                                Callee::Indirect { callee: c.value, function },
                                e,
                                span,
                            ),
                            _ => Err(semantic("Not a function"@, span)),
                        },
                    }
                },
                _ => Err(semantic("Not a call"@, span)),
            }
        }),
{
    reveal(lowered_call);
    reveal(lowered_expression);
    reveal(lowered_call_of);
}

/// The defining equation of `lowered_call_of`.
pub proof fn lemma_lowered_call_of(s: State, callee: Callee, e: SpecExpression, span: Span)
    ensures
        lowered_call_of(s, callee, e, span) == ({
            match e {
                SpecExpression::Call { arguments, .. } => if callee.function() >= s.unit.signatures.len() {
                    Err(semantic("Not a function"@, span))
                } else if arguments.len() != s.unit.signatures[callee.function() as int].params.len() {
                    Err(semantic("Wrong number of arguments"@, span))
                } else {
                    match lowered_arguments(
                        s,
                        arguments,
                        0,
                        s.unit.signatures[callee.function() as int].params,
                        span,
                    ) {
                        Err(e) => Err(e),
                        Ok((s1, _)) => s1.emitted(
                            callee.instruction(arguments.len() as usize),
                            ValueType::Data(s.unit.signatures[callee.function() as int].return_type),
                        ),
                    }
                },
                _ => Err(semantic("Not a call"@, span)),
            }
        }),
{
    reveal(lowered_call_of);
    reveal(lowered_arguments);
}

/// The defining equation of `lowered_arguments`.
pub proof fn lemma_lowered_arguments(s: State, arguments: Seq<SpecExpression>, i: int, params: Seq<Type>, span: Span)
    ensures
        lowered_arguments(s, arguments, i, params, span) == ({
            if i < 0 || i >= arguments.len() || i >= params.len() {
                Ok((s, ()))
            } else {
                match lowered_expression(s, arguments[i], span) {
                    Err(e) => Err(e),
                    Ok((s1, a)) => if a.value_type != ValueType::Data(params[i]) {
                        Err(semantic("Mismatched types"@, span))
                    } else {
                        lowered_arguments(
                            s1.emit(Instruction::Argument { value: a.value }),
                            arguments,
                            i + 1,
                            params,
                            span,
                        )
                    },
                }
            }
        }),
{
    reveal(lowered_expression);
    reveal(lowered_arguments);
}

/// The defining equation of `lowered_literal`.
pub proof fn lemma_lowered_literal(s: State, e: SpecExpression, span: Span)
    ensures
        lowered_literal(s, e, span) == ({
            match e {
                SpecExpression::Function { params, return_type, body } => match lowered_routine(
                    s.unit,
                    Seq::empty(),
                    params,
                    return_type,
                    body,
                    span,
                ) {
                    Err(e) => Err(e),
                    Ok((unit, routine)) => State {
                        unit: Unit {
                            signatures: unit.signatures.push(routine.signature),
                            lifted: unit.lifted.push(routine),
                            ..unit
                        },
                        function: s.function,
                    }.emitted(
                        Instruction::FunctionRef { function: unit.signatures.len() as usize },
                        ValueType::Function(unit.signatures.len() as usize),
                    ),
                },
                _ => Err(semantic("Not a function"@, span)),
            }
        }),
{
    reveal(lowered_literal);
    reveal(lowered_routine);
}

/// The defining equation of `lowered_routine`.
pub proof fn lemma_lowered_routine(unit: Unit, name: Seq<char>, params: Seq<SpecParameter>, return_type: Type, body: SpecBlock, span: Span)
    ensures
        lowered_routine(unit, name, params, return_type, body, span) == ({
            if !supported_parameters(params) || !supported_return(return_type) {
                Err(semantic("Unsupported type"@, span))
            } else {
                match lowered_block(State { unit, function: entry(params, return_type) }, body) {
                    Err(e) => Err(e),
                    Ok((s, _)) => Ok(
                        (
                            s.unit,
                            s.function.terminate(fall_through(return_type), s.function.current).routine(
                                name,
                                signature_of(params, return_type),
                            ),
                        ),
                    ),
                }
            }
        }),
{
    reveal(lowered_routine);
    reveal(lowered_block);
}

/// The defining equation of `lowered_block`.
pub proof fn lemma_lowered_block(s: State, block: SpecBlock)
    ensures
        lowered_block(s, block) == ({
            match lowered_statements(s.enter_scope(), block.statements, 0) {
                Err(e) => Err(e),
                Ok((s1, _)) => Ok((s1.exit_scope(), ())),
            }
        }),
{
    reveal(lowered_block);
    reveal(lowered_statements);
}

/// The defining equation of `lowered_statements`.
pub proof fn lemma_lowered_statements(s: State, statements: Seq<SpecStatement>, i: int)
    ensures
        lowered_statements(s, statements, i) == ({
            if i < 0 || i >= statements.len() {
                Ok((s, ()))
            } else {
                match lowered_statement(s, statements[i]) {
                    Err(e) => Err(e),
                    Ok((s1, _)) => lowered_statements(s1, statements, i + 1),
                }
            }
        }),
{
    reveal(lowered_statements);
    reveal(lowered_statement);
}

/// The defining equation of `lowered_statement`.
pub proof fn lemma_lowered_statement(s: State, statement: SpecStatement)
    ensures
        lowered_statement(s, statement) == ({
            match statement {
                SpecStatement::VariableDeclaration { .. } => lowered_declaration(s, statement),
                SpecStatement::Assign { .. } => lowered_assignment(s, statement),
                SpecStatement::Return { .. } => lowered_return(s, statement),
                SpecStatement::Block { block, .. } => lowered_block(s, *block),
                SpecStatement::If { .. } => lowered_if(s, statement),
                SpecStatement::While { .. } => lowered_while(s, statement),
                SpecStatement::Expression { expression, span } => match lowered_expression(
                    s,
                    expression,
                    span,
                ) {
                    Err(e) => Err(e),
                    Ok((s1, _)) => Ok((s1, ())),
                },
                SpecStatement::DoUntil { .. } => lowered_do_until(s, statement),
                SpecStatement::For { .. } => lowered_for(s, statement),
            }
        }),
{
    reveal(lowered_statement);
    reveal(lowered_expression);
    reveal(lowered_block);
    reveal(lowered_declaration);
    reveal(lowered_assignment);
    reveal(lowered_return);
    reveal(lowered_if);
    reveal(lowered_while);
    reveal(lowered_do_until);
    reveal(lowered_for);
}

/// The defining equation of `lowered_declaration`.
pub proof fn lemma_lowered_declaration(s: State, statement: SpecStatement)
    ensures
        lowered_declaration(s, statement) == ({
            match statement {
                SpecStatement::VariableDeclaration { ident, var_type, value, span } => {
                    match lowered_expression(s, value, span) {
                        Err(e) => Err(e),
                        Ok((s1, v)) => if var_type is Some && v.value_type != ValueType::Data(var_type->0) {
                            Err(semantic("Mismatched types"@, span))
                        } else {
                            Ok(
                                (
                                    State {
                                        function: s1.function.add_slot(v.value_type).define(
                                            ident,
                                            Slot {
                                                index: s1.function.next_slot(),
                                                value_type: v.value_type,
                                            },
                                        ),
                                        ..s1
                                    }.emit(
                                        Instruction::Store {
                                            slot: s1.function.next_slot(),
                                            value: v.value,
                                        },
                                    ),
                                    (),
                                ),
                            )
                        },
                    }
                },
                _ => Err(semantic("Not a declaration"@, Span { start: 0, end: 0 })),
            }
        }),
{
    reveal(lowered_declaration);
    reveal(lowered_expression);
}

/// The defining equation of `lowered_assignment`.
pub proof fn lemma_lowered_assignment(s: State, statement: SpecStatement)
    ensures
        lowered_assignment(s, statement) == ({
            match statement {
                SpecStatement::Assign { ident, value, span } => match s.function.lookup(ident) {
                    None => Err(semantic("Unknown identifier: "@ + ident, span)),
                    Some(slot) => match lowered_expression(s, value, span) {
                        Err(e) => Err(e),
                        Ok((s1, v)) => if !same_type(s1.unit, slot.value_type, v.value_type) {
                            Err(semantic("Mismatched types"@, span))
                        } else {
                            Ok((s1.emit(Instruction::Store { slot: slot.index, value: v.value }), ()))
                        },
                    },
                },
                _ => Err(semantic("Not an assignment"@, Span { start: 0, end: 0 })),
            }
        }),
{
    reveal(lowered_assignment);
    reveal(lowered_expression);
}

/// The defining equation of `lowered_return`.
pub proof fn lemma_lowered_return(s: State, statement: SpecStatement)
    ensures
        lowered_return(s, statement) == ({
            match statement {
                SpecStatement::Return { value: Some(e), span } => match lowered_expression(s, e, span) {
                    Err(e) => Err(e),
                    Ok((s1, v)) => if v.value_type != ValueType::Data(s1.function.return_type) {
                        Err(semantic("Mismatched return type"@, span))
                    } else {
                        Ok(
                            (
                                returned(
                                    s1,
                                    if returns_nothing(s1.function.return_type) {
                                        None
                                    } else {
                                        Some(v.value)
                                    },
                                ),
                                (),
                            ),
                        )
                    },
                },
                SpecStatement::Return { value: None, span } => if !returns_nothing(
                    s.function.return_type,
                ) {
                    Err(semantic("Missing return value"@, span))
                } else {
                    Ok((returned(s, None), ()))
                },
                _ => Err(semantic("Not a return"@, Span { start: 0, end: 0 })),
            }
        }),
{
    reveal(lowered_return);
    reveal(lowered_expression);
}

/// The defining equation of `lowered_condition`.
pub proof fn lemma_lowered_condition(s: State, e: SpecExpression, span: Span)
    ensures
        lowered_condition(s, e, span) == ({
            match lowered_expression(s, e, span) {
                Err(e) => Err(e),
                Ok((s1, c)) => if c.value_type != ValueType::Data(Type::Bool) {
                    Err(semantic("Condition is not a bool"@, span))
                } else {
                    Ok((s1, c.value))
                },
            }
        }),
{
    reveal(lowered_condition);
    reveal(lowered_expression);
}

/// The defining equation of `lowered_if`.
pub proof fn lemma_lowered_if(s: State, statement: SpecStatement)
    ensures
        lowered_if(s, statement) == ({
            match statement {
                SpecStatement::If { condition, then_branch, else_branch, span } => {
                    match lowered_condition(s, condition, span) {
                        Err(e) => Err(e),
                        Ok((s1, c)) => {
                            let then_block = s1.function.next_block();
                            let other = (then_block + 1) as usize;
                            match else_branch {
                                None => match lowered_statement(
                                    s1.add_block().add_block().terminate(
                                        Terminator::Branch {
                                            condition: c,
                                            then_target: then_block,
                                            else_target: other,
                                        },
                                        then_block,
                                    ),
                                    *then_branch,
                                ) {
                                    Err(e) => Err(e),
                                    Ok((s2, _)) => Ok(
                                        (s2.terminate(Terminator::Jump { target: other }, other), ()),
                                    ),
                                },
                                Some(else_statement) => {
                                    let continuation = (then_block + 2) as usize;
                                    match lowered_statement(
                                        s1.add_block().add_block().add_block().terminate(
                                            Terminator::Branch {
                                                condition: c,
                                                then_target: then_block,
                                                else_target: other,
                                            },
                                            then_block,
                                        ),
                                        *then_branch,
                                    ) {
                                        Err(e) => Err(e),
                                        Ok((s2, _)) => match lowered_statement(
                                            s2.terminate(
                                                Terminator::Jump { target: continuation },
                                                other,
                                            ),
                                            *else_statement,
                                        ) {
                                            Err(e) => Err(e),
                                            Ok((s3, _)) => Ok(
                                                (
                                                    s3.terminate(
                                                        Terminator::Jump { target: continuation },
                                                        continuation,
                                                    ),
                                                    (),
                                                ),
                                            ),
                                        },
                                    }
                                },
                            }
                        },
                    }
                },
                _ => Err(semantic("Not an if statement"@, Span { start: 0, end: 0 })),
            }
        }),
{
    reveal(lowered_if);
    reveal(lowered_statement);
    reveal(lowered_condition);
}

/// The defining equation of `lowered_while`.
pub proof fn lemma_lowered_while(s: State, statement: SpecStatement)
    ensures
        lowered_while(s, statement) == ({
            match statement {
                SpecStatement::While { condition, body, span } => match lowered_condition(
                    loop_entry(s),
                    condition,
                    span,
                ) {
                    Err(e) => Err(e),
                    Ok((s1, c)) => match lowered_block(
                        loop_branch(s1, s.function.next_block(), c),
                        body,
                    ) {
                        Err(e) => Err(e),
                        Ok((s2, _)) => Ok((loop_back(s2, s.function.next_block()), ())),
                    },
                },
                _ => Err(semantic("Not a while statement"@, Span { start: 0, end: 0 })),
            }
        }),
{
    reveal(lowered_while);
    reveal(lowered_block);
    reveal(lowered_condition);
}

/// The defining equation of `lowered_do_until`.
pub proof fn lemma_lowered_do_until(s: State, statement: SpecStatement)
    ensures
        lowered_do_until(s, statement) == ({
            match statement {
                SpecStatement::DoUntil { condition, body, span } => {
                    let body_block = s.function.next_block();
                    let exit = (body_block + 1) as usize;
                    match lowered_statement(
                        s.add_block().add_block().terminate(
                            Terminator::Jump { target: body_block },
                            body_block,
                        ),
                        *body,
                    ) {
                        Err(e) => Err(e),
                        Ok((s1, _)) => match lowered_condition(s1, condition, span) {
                            Err(e) => Err(e),
                            Ok((s2, c)) => Ok(
                                (
                                    s2.terminate(
                                        Terminator::Branch {
                                            condition: c,
                                            then_target: exit,
                                            else_target: body_block,
                                        },
                                        exit,
                                    ),
                                    (),
                                ),
                            ),
                        },
                    }
                },
                _ => Err(semantic("Not a do-until statement"@, Span { start: 0, end: 0 })),
            }
        }),
{
    reveal(lowered_do_until);
    reveal(lowered_statement);
    reveal(lowered_condition);
}

/// The defining equation of `lowered_for`.
pub proof fn lemma_lowered_for(s: State, statement: SpecStatement)
    ensures
        lowered_for(s, statement) == ({
            match statement {
                SpecStatement::For { init, condition, increment, body, span } => match lowered_statement(
                    s.enter_scope(),
                    *init,
                ) {
                    Err(e) => Err(e),
                    Ok((s1, _)) => match lowered_condition(loop_entry(s1), condition, span) {
                        Err(e) => Err(e),
                        Ok((s2, c)) => match lowered_block(
                            loop_branch(s2, s1.function.next_block(), c).enter_scope(),
                            body,
                        ) {
                            Err(e) => Err(e),
                            Ok((s3, _)) => match lowered_statement(s3, *increment) {
                                Err(e) => Err(e),
                                Ok((s4, _)) => Ok(
                                    (
                                        loop_back(
                                            s4.exit_scope(),
                                            s1.function.next_block(),
                                        ).exit_scope(),
                                        (),
                                    ),
                                ),
                            },
                        },
                    },
                },
                _ => Err(semantic("Not a for statement"@, Span { start: 0, end: 0 })),
            }
        }),
{
    reveal(lowered_for);
    reveal(lowered_block);
    reveal(lowered_statement);
    reveal(lowered_condition);
}

} // verus!
