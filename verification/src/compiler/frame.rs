//! What lowering leaves alone.
//!
//! A lowering rule only adds to its state: it appends code, blocks, slots,
//! literals and routines, and it closes the block that is current.  A block
//! that was closed before stays as it is, and so does everything that was
//! appended before.  Scopes are restored: an expression and a block leave
//! the scope chain as they found it, and a statement changes the innermost
//! scope only.

use super::builder::{SpecBuilder, Typed};
use super::ir::{Instruction, Terminator, ValueType};
use super::rules::{
    finish_binary, finish_compound, finish_unary, logical_split, loop_back, loop_branch, loop_entry,
    lowered_arguments, lowered_assignment, lowered_binary, lowered_block, lowered_call,
    lowered_call_of, lowered_compound, lowered_condition, lowered_declaration, lowered_do_until,
    lowered_expression, lowered_for, lowered_identifier, lowered_if, lowered_literal,
    lowered_logical, lowered_return, lowered_routine, lowered_statement, lowered_statements,
    lowered_step, lowered_unary, lowered_while, returned, Callee, State, Unit,
};
use super::unfold;
use crate::ast::{SpecBlock, SpecExpression, SpecParameter, SpecStatement, Type};
use crate::error::Span;
use vstd::prelude::*;

verus! {

/// Whether `b` holds everything that `a` holds, at the same places.
pub open spec fn prefix<T>(a: Seq<T>, b: Seq<T>) -> bool {
    &&& a.len() <= b.len()
    &&& forall|i: int| 0 <= i < a.len() ==> #[trigger] b[i] == a[i]
}

/// Whether the unit `b` is the unit `a` with function literals added, each
/// with its signature.
pub open spec fn unit_extends(a: Unit, b: Unit) -> bool {
    &&& b.names == a.names
    &&& prefix(a.signatures, b.signatures)
    &&& prefix(a.lifted, b.lifted)
    &&& b.signatures.len() - a.signatures.len() == b.lifted.len() - a.lifted.len()
}

/// Whether the builder `b` is the builder `a` with code, blocks, slots and
/// literals added, and with no block changed but the one that was current
/// in `a`.  The block that is current in `b` is that same block or a block
/// that was added; it is a block of `b` if it was one of `a`.
pub open spec fn builder_extends(a: SpecBuilder, b: SpecBuilder) -> bool {
    &&& prefix(a.code, b.code)
    &&& prefix(a.slots, b.slots)
    &&& prefix(a.floats, b.floats)
    &&& a.blocks.len() <= b.blocks.len()
    &&& forall|k: int|
        0 <= k < a.blocks.len() && k != a.current ==> #[trigger] b.blocks[k] == a.blocks[k]
    &&& (b.current == a.current || b.current >= a.blocks.len())
    &&& a.current < a.blocks.len() ==> b.current < b.blocks.len()
}

/// Whether the builder `b` holds at least as much as the builder `a`.
pub open spec fn grows(a: SpecBuilder, b: SpecBuilder) -> bool {
    &&& a.code.len() <= b.code.len()
    &&& a.blocks.len() <= b.blocks.len()
    &&& a.slots.len() <= b.slots.len()
    &&& a.floats.len() <= b.floats.len()
}

/// Whether the state `b` comes after the state `a` in one lowering: it holds
/// at least as much, for the same function, and, where its indices fit a
/// machine word, it extends `a`.
pub open spec fn frame(a: State, b: State) -> bool {
    &&& grows(a.function, b.function)
    &&& b.function.return_type == a.function.return_type
    &&& unit_extends(a.unit, b.unit)
    &&& b.function.bounded() ==> builder_extends(a.function, b.function)
}

/// Whether `b` has the scope chain of `a`.
pub open spec fn same_scopes(a: State, b: State) -> bool {
    b.function.scopes == a.function.scopes
}

/// Whether `b` has the scope chain of `a` but for its innermost scope.
pub open spec fn same_outer_scopes(a: State, b: State) -> bool {
    &&& b.function.scopes.len() == a.function.scopes.len()
    &&& b.function.scopes.drop_last() == a.function.scopes.drop_last()
}

/// Every state comes after itself.
pub proof fn lemma_frame_start(a: State)
    ensures
        frame(a, a),
{
}

/// What comes after a state that comes after `a` comes after `a`.
pub proof fn lemma_frame_chain(a: State, b: State, c: State)
    requires
        frame(a, b),
        frame(b, c),
    ensures
        frame(a, c),
{
    if c.function.bounded() {
        assert(b.function.bounded());
        assert(builder_extends(a.function, b.function));
        assert(builder_extends(b.function, c.function));
        assert forall|k: int|
            0 <= k < a.function.blocks.len() && k != a.function.current implies #[trigger] c.function.blocks[k]
            == a.function.blocks[k] by {
            assert(b.function.blocks[k] == a.function.blocks[k]);
        }
        assert forall|i: int| 0 <= i < a.function.code.len() implies #[trigger] c.function.code[i]
            == a.function.code[i] by {
            assert(b.function.code[i] == a.function.code[i]);
        }
        assert forall|i: int| 0 <= i < a.function.slots.len() implies #[trigger] c.function.slots[i]
            == a.function.slots[i] by {
            assert(b.function.slots[i] == a.function.slots[i]);
        }
        assert forall|i: int| 0 <= i < a.function.floats.len() implies #[trigger] c.function.floats[i]
            == a.function.floats[i] by {
            assert(b.function.floats[i] == a.function.floats[i]);
        }
    }
    assert forall|i: int| 0 <= i < a.unit.signatures.len() implies #[trigger] c.unit.signatures[i]
        == a.unit.signatures[i] by {
        assert(b.unit.signatures[i] == a.unit.signatures[i]);
    }
    assert forall|i: int| 0 <= i < a.unit.lifted.len() implies #[trigger] c.unit.lifted[i]
        == a.unit.lifted[i] by {
        assert(b.unit.lifted[i] == a.unit.lifted[i]);
    }
}

/// An instruction appended after `b` keeps the frame of `a`.
pub proof fn lemma_then_emit(a: State, b: State, instruction: Instruction)
    requires
        frame(a, b),
    ensures
        frame(a, b.emit(instruction)),
        same_scopes(b, b.emit(instruction)),
{
    let c = b.emit(instruction);
    if c.function.bounded() {
        assert(builder_extends(a.function, b.function));
    }
}

/// A block added after `b` keeps the frame of `a`.
pub proof fn lemma_then_add_block(a: State, b: State)
    requires
        frame(a, b),
    ensures
        frame(a, b.add_block()),
        same_scopes(b, b.add_block()),
{
    let c = b.add_block();
    if c.function.bounded() {
        assert(builder_extends(a.function, b.function));
    }
}

/// A slot added after `b` keeps the frame of `a`.
pub proof fn lemma_then_add_slot(a: State, b: State, value_type: ValueType)
    requires
        frame(a, b),
    ensures
        frame(a, State { function: b.function.add_slot(value_type), ..b }),
{
    let c = State { function: b.function.add_slot(value_type), ..b };
    if c.function.bounded() {
        assert(builder_extends(a.function, b.function));
    }
}

/// A literal added after `b` keeps the frame of `a`.
pub proof fn lemma_then_add_float(a: State, b: State, text: Seq<char>)
    requires
        frame(a, b),
    ensures
        frame(a, State { function: b.function.add_float(text), ..b }),
{
    let c = State { function: b.function.add_float(text), ..b };
    if c.function.bounded() {
        assert(builder_extends(a.function, b.function));
    }
}

/// A change of the scopes after `b` keeps the frame of `a`.
pub proof fn lemma_then_scopes(a: State, b: State, c: State)
    requires
        frame(a, b),
        c.unit == b.unit,
        c.function == (SpecBuilder { scopes: c.function.scopes, ..b.function }),
    ensures
        frame(a, c),
{
    if c.function.bounded() {
        assert(builder_extends(a.function, b.function));
    }
}

/// A terminator after `b` keeps the frame of `a`, where the block that
/// becomes current is the one that was current in `a` or was added since.
pub proof fn lemma_then_terminate(a: State, b: State, terminator: Terminator, next: usize)
    requires
        frame(a, b),
        b.function.bounded() ==> next == a.function.current || a.function.blocks.len() <= next
            < b.function.blocks.len(),
    ensures
        frame(a, b.terminate(terminator, next)),
        same_scopes(b, b.terminate(terminator, next)),
{
    let c = b.terminate(terminator, next);
    if c.function.bounded() {
        assert(b.function.bounded());
        assert(builder_extends(a.function, b.function));
        assert forall|k: int|
            0 <= k < a.function.blocks.len() && k != a.function.current implies #[trigger] c.function.blocks[k]
            == a.function.blocks[k] by {
            assert(b.function.blocks[k] == a.function.blocks[k]);
        }
    }
}

/// Whether a step from `s` kept the frame and the scopes.
pub open spec fn keeps<T>(s: State, r: Result<(State, T), crate::error::SpecCompileError>) -> bool {
    match r {
        Ok((after, _)) => frame(s, after) && same_scopes(s, after),
        Err(_) => true,
    }
}

/// Whether a step from `s` kept the frame and the outer scopes.
pub open spec fn keeps_outer<T>(
    s: State,
    r: Result<(State, T), crate::error::SpecCompileError>,
) -> bool {
    match r {
        Ok((after, _)) => frame(s, after) && same_outer_scopes(s, after),
        Err(_) => true,
    }
}

/// A step from `b`, which comes after `a`, is a step from `a`.
pub proof fn lemma_keeps_chain<T>(
    a: State,
    b: State,
    r: Result<(State, T), crate::error::SpecCompileError>,
)
    requires
        frame(a, b),
        same_scopes(a, b),
        keeps(b, r),
    ensures
        keeps(a, r),
{
    match r {
        Ok((c, _)) => {
            lemma_frame_chain(a, b, c);
        },
        Err(_) => {},
    }
}

/// An instruction that is appended and computes a value keeps the frame.
pub proof fn lemma_emitted(s: State, instruction: Instruction, value_type: ValueType)
    ensures
        keeps(s, s.emitted(instruction, value_type)),
{
    lemma_then_emit(s, s, instruction);
}

/// `lowered_identifier` keeps the frame and the scopes.
pub proof fn lemma_identifier_frame(s: State, ident: Seq<char>, span: Span)
    ensures
        keeps(s, lowered_identifier(s, ident, span)),
{
    reveal(lowered_identifier);
    match s.function.lookup(ident) {
        Some(slot) => {
            lemma_emitted(s, Instruction::Load { slot: slot.index }, slot.value_type);
        },
        None => {
            match super::rules::find_function(s.unit.names, ident, 0) {
                Some(function) => {
                    lemma_emitted(
                        s,
                        Instruction::FunctionRef { function },
                        ValueType::Function(function),
                    );
                },
                None => {},
            }
        },
    }
}

/// `finish_binary` keeps the frame and the scopes.
pub proof fn lemma_finish_binary_frame(
    s: State,
    operator: crate::ast::BinaryOperator,
    l: Typed,
    r: Typed,
    span: Span,
)
    ensures
        keeps(s, finish_binary(s, operator, l, r, span)),
{
    reveal(finish_binary);
    match finish_binary(s, operator, l, r, span) {
        Ok((after, _)) => {
            let operation = super::rules::operation_of(operator)->0;
            let t = l.value_type->Data_0;
            lemma_then_emit(
                s,
                s,
                Instruction::Binary { operation, operand_type: t, left: l.value, right: r.value },
            );
        },
        Err(_) => {},
    }
}

/// `finish_unary` keeps the frame and the scopes.
pub proof fn lemma_finish_unary_frame(
    s: State,
    operator: crate::ast::UnaryOperator,
    r: Typed,
    span: Span,
)
    ensures
        keeps(s, finish_unary(s, operator, r, span)),
{
    reveal(finish_unary);
    match finish_unary(s, operator, r, span) {
        Ok((after, v)) => {
            assert(exists|i: Instruction| after == s.emit(i));
            let i = choose|i: Instruction| after == s.emit(i);
            lemma_then_emit(s, s, i);
        },
        Err(_) => {},
    }
}

/// `lowered_step` keeps the frame and the scopes.
pub proof fn lemma_step_frame(
    s: State,
    target: SpecExpression,
    increment: bool,
    prefix: bool,
    span: Span,
)
    ensures
        keeps(s, lowered_step(s, target, increment, prefix, span)),
{
    reveal(lowered_step);
    match lowered_step(s, target, increment, prefix, span) {
        Ok((after, _)) => {
            let slot = s.function.lookup(target->ident)->0;
            let old_value = s.function.next_value();
            let one = (old_value + 1) as usize;
            let new_value = (old_value + 2) as usize;
            let i1 = Instruction::Load { slot: slot.index };
            let i2 = Instruction::IntConst { value: 1 };
            let i3 = Instruction::Binary {
                operation: if increment {
                    super::ir::Operation::Add
                } else {
                    super::ir::Operation::Subtract
                },
                operand_type: Type::Int,
                left: old_value,
                right: one,
            };
            let i4 = Instruction::Store { slot: slot.index, value: new_value };
            lemma_then_emit(s, s, i1);
            lemma_then_emit(s, s.emit(i1), i2);
            lemma_then_emit(s, s.emit(i1).emit(i2), i3);
            lemma_then_emit(s, s.emit(i1).emit(i2).emit(i3), i4);
        },
        Err(_) => {},
    }
}

/// `finish_compound` keeps the frame and the scopes.
pub proof fn lemma_finish_compound_frame(
    s: State,
    slot: super::builder::Slot,
    operation: super::ir::Operation,
    r: Typed,
    span: Span,
)
    ensures
        keeps(s, finish_compound(s, slot, operation, r, span)),
{
    reveal(finish_compound);
    match finish_compound(s, slot, operation, r, span) {
        Ok((after, _)) => {
            let old_value = s.function.next_value();
            let new_value = (old_value + 1) as usize;
            let i1 = Instruction::Load { slot: slot.index };
            let i2 = Instruction::Binary {
                operation,
                operand_type: slot.value_type->Data_0,
                left: old_value,
                right: r.value,
            };
            let i3 = Instruction::Store { slot: slot.index, value: new_value };
            lemma_then_emit(s, s, i1);
            lemma_then_emit(s, s.emit(i1), i2);
            lemma_then_emit(s, s.emit(i1).emit(i2), i3);
        },
        Err(_) => {},
    }
}

/// The split after the left operand of a logical operator keeps the frame
/// of `a`, and makes the block of the right operand current.
pub proof fn lemma_logical_split_frame(a: State, b: State, l: Typed, is_or: bool)
    requires
        frame(a, b),
    ensures
        frame(a, logical_split(b, l, is_or)),
        same_scopes(b, logical_split(b, l, is_or)),
        logical_split(b, l, is_or).function.blocks.len() == b.function.blocks.len() + 2,
{
    let slot = b.function.next_slot();
    let right_block = b.function.next_block();
    let meet = (right_block + 1) as usize;
    let b1 = State { function: b.function.add_slot(ValueType::Data(Type::Bool)), ..b };
    lemma_then_add_slot(a, b, ValueType::Data(Type::Bool));
    let b2 = b1.emit(Instruction::Store { slot, value: l.value });
    lemma_then_emit(a, b1, Instruction::Store { slot, value: l.value });
    let b3 = b2.add_block();
    lemma_then_add_block(a, b2);
    let b4 = b3.add_block();
    lemma_then_add_block(a, b3);
    let terminator = if is_or {
        Terminator::Branch { condition: l.value, then_target: meet, else_target: right_block }
    } else {
        Terminator::Branch { condition: l.value, then_target: right_block, else_target: meet }
    };
    lemma_then_terminate(a, b4, terminator, right_block);
}

/// `lowered_expression` keeps the frame and the scopes.
pub proof fn lemma_expression_frame(s: State, e: SpecExpression, span: Span)
    ensures
        keeps(s, lowered_expression(s, e, span)),
    decreases e, 2int,
{
    unfold::lemma_lowered_expression(s, e, span);
    match e {
        SpecExpression::IntegerLiteral { value } => {
            lemma_emitted(s, Instruction::IntConst { value }, ValueType::Data(Type::Int));
        },
        SpecExpression::FloatLiteral { value } => {
            let s1 = State { function: s.function.add_float(value), ..s };
            lemma_then_add_float(s, s, value);
            lemma_then_emit(s, s1, Instruction::FloatConst { literal: s.function.next_float() });
        },
        SpecExpression::StringLiteral { .. } => {},
        SpecExpression::BooleanLiteral { value } => {
            lemma_emitted(s, Instruction::BoolConst { value }, ValueType::Data(Type::Bool));
        },
        SpecExpression::NullLiteral => {
            lemma_emitted(s, Instruction::NullConst, ValueType::Data(Type::Null));
        },
        SpecExpression::Identifier { ident } => {
            lemma_identifier_frame(s, ident, span);
        },
        SpecExpression::Binary { operator, .. } => {
            if operator is And || operator is Or {
                lemma_logical_frame(s, e, span);
            } else {
                lemma_binary_frame(s, e, span);
            }
        },
        SpecExpression::Unary { .. } => {
            lemma_unary_frame(s, e, span);
        },
        SpecExpression::Grouping { expression } => {
            lemma_expression_frame(s, *expression, span);
        },
        SpecExpression::Function { .. } => {
            lemma_literal_frame(s, e, span);
        },
        SpecExpression::Call { .. } => {
            lemma_call_frame(s, e, span);
        },
        SpecExpression::Postfix { left, operator } => {
            lemma_step_frame(s, *left, operator is PlusPlus, false, span);
        },
        SpecExpression::Prefix { operator, right } => {
            lemma_step_frame(s, *right, operator is PlusPlus, true, span);
        },
        SpecExpression::Assign { .. } => {
            lemma_compound_frame(s, e, span);
        },
    }
}

/// `lowered_binary` keeps the frame and the scopes.
pub proof fn lemma_binary_frame(s: State, e: SpecExpression, span: Span)
    ensures
        keeps(s, lowered_binary(s, e, span)),
    decreases e, 1int,
{
    unfold::lemma_lowered_binary(s, e, span);
    match e {
        SpecExpression::Binary { left, operator, right } => {
            lemma_expression_frame(s, *left, span);
            match lowered_expression(s, *left, span) {
                Err(_) => {},
                Ok((s1, l)) => {
                    lemma_expression_frame(s1, *right, span);
                    match lowered_expression(s1, *right, span) {
                        Err(_) => {},
                        Ok((s2, r)) => {
                            lemma_frame_chain(s, s1, s2);
                            lemma_finish_binary_frame(s2, operator, l, r, span);
                            lemma_keeps_chain(s, s2, finish_binary(s2, operator, l, r, span));
                        },
                    }
                },
            }
        },
        _ => {},
    }
}

/// `lowered_logical` keeps the frame and the scopes.
pub proof fn lemma_logical_frame(s: State, e: SpecExpression, span: Span)
    ensures
        keeps(s, lowered_logical(s, e, span)),
    decreases e, 1int,
{
    unfold::lemma_lowered_logical(s, e, span);
    match e {
        SpecExpression::Binary { left, operator, right } => {
            lemma_expression_frame(s, *left, span);
            match lowered_expression(s, *left, span) {
                Err(_) => {},
                Ok((s1, l)) => {
                    let split = logical_split(s1, l, operator is Or);
                    lemma_logical_split_frame(s, s1, l, operator is Or);
                    lemma_expression_frame(split, *right, span);
                    match lowered_expression(split, *right, span) {
                        Err(_) => {},
                        Ok((s2, r)) => {
                            lemma_frame_chain(s, split, s2);
                            let slot = s1.function.next_slot();
                            let meet = (s1.function.next_block() + 1) as usize;
                            let s3 = s2.emit(Instruction::Store { slot, value: r.value });
                            lemma_then_emit(s, s2, Instruction::Store { slot, value: r.value });
                            lemma_then_terminate(s, s3, Terminator::Jump { target: meet }, meet);
                            let s4 = s3.terminate(Terminator::Jump { target: meet }, meet);
                            lemma_then_emit(s, s4, Instruction::Load { slot });
                        },
                    }
                },
            }
        },
        _ => {},
    }
}

/// `lowered_unary` keeps the frame and the scopes.
pub proof fn lemma_unary_frame(s: State, e: SpecExpression, span: Span)
    ensures
        keeps(s, lowered_unary(s, e, span)),
    decreases e, 1int,
{
    unfold::lemma_lowered_unary(s, e, span);
    match e {
        SpecExpression::Unary { operator, right } => {
            lemma_expression_frame(s, *right, span);
            match lowered_expression(s, *right, span) {
                Err(_) => {},
                Ok((s1, r)) => {
                    lemma_finish_unary_frame(s1, operator, r, span);
                    lemma_keeps_chain(s, s1, finish_unary(s1, operator, r, span));
                },
            }
        },
        _ => {},
    }
}

/// `lowered_compound` keeps the frame and the scopes.
pub proof fn lemma_compound_frame(s: State, e: SpecExpression, span: Span)
    ensures
        keeps(s, lowered_compound(s, e, span)),
    decreases e, 1int,
{
    unfold::lemma_lowered_compound(s, e, span);
    match e {
        SpecExpression::Assign { left, operator, right } => {
            match *left {
                SpecExpression::Identifier { ident } => {
                    match s.function.lookup(ident) {
                        None => {},
                        Some(slot) => {
                            lemma_expression_frame(s, *right, span);
                            match lowered_expression(s, *right, span) {
                                Err(_) => {},
                                Ok((s1, r)) => {
                                    let operation = super::rules::assign_operation(operator);
                                    lemma_finish_compound_frame(s1, slot, operation, r, span);
                                    lemma_keeps_chain(
                                        s,
                                        s1,
                                        finish_compound(s1, slot, operation, r, span),
                                    );
                                },
                            }
                        },
                    }
                },
                _ => {},
            }
        },
        _ => {},
    }
}

/// `lowered_call` keeps the frame and the scopes.
pub proof fn lemma_call_frame(s: State, e: SpecExpression, span: Span)
    ensures
        keeps(s, lowered_call(s, e, span)),
    decreases e, 1int,
{
    unfold::lemma_lowered_call(s, e, span);
    match e {
        SpecExpression::Call { callee, arguments } => {
            if super::rules::names_function(s, *callee) {
                let function = super::rules::find_function(s.unit.names, callee->ident, 0)->0;
                lemma_call_of_frame(s, Callee::Direct { function }, e, span);
            } else {
                lemma_expression_frame(s, *callee, span);
                match lowered_expression(s, *callee, span) {
                    Err(_) => {},
                    Ok((s1, c)) => {
                        match c.value_type {
                            ValueType::Function(function) => {
                                let target = Callee::Indirect { callee: c.value, function };
                                lemma_call_of_frame(s1, target, e, span);
                                lemma_keeps_chain(s, s1, lowered_call_of(s1, target, e, span));
                            },
                            _ => {},
                        }
                    },
                }
            }
        },
        _ => {},
    }
}

/// `lowered_call_of` keeps the frame and the scopes.
pub proof fn lemma_call_of_frame(s: State, callee: Callee, e: SpecExpression, span: Span)
    ensures
        keeps(s, lowered_call_of(s, callee, e, span)),
    decreases e, 0int,
{
    unfold::lemma_lowered_call_of(s, callee, e, span);
    match e {
        SpecExpression::Call { arguments, .. } => {
            if callee.function() < s.unit.signatures.len() && arguments.len()
                == s.unit.signatures[callee.function() as int].params.len() {
                let params = s.unit.signatures[callee.function() as int].params;
                lemma_arguments_frame(s, arguments, 0, params, span);
                match lowered_arguments(s, arguments, 0, params, span) {
                    Err(_) => {},
                    Ok((s1, _)) => {
                        lemma_then_emit(s, s1, callee.instruction(arguments.len() as usize));
                    },
                }
            }
        },
        _ => {},
    }
}

/// `lowered_arguments` keeps the frame and the scopes.
pub proof fn lemma_arguments_frame(
    s: State,
    arguments: Seq<SpecExpression>,
    i: int,
    params: Seq<Type>,
    span: Span,
)
    ensures
        keeps(s, lowered_arguments(s, arguments, i, params, span)),
    decreases arguments, arguments.len() - i,
{
    unfold::lemma_lowered_arguments(s, arguments, i, params, span);
    if !(i < 0 || i >= arguments.len() || i >= params.len()) {
        lemma_expression_frame(s, arguments[i], span);
        match lowered_expression(s, arguments[i], span) {
            Err(_) => {},
            Ok((s1, a)) => {
                if a.value_type == ValueType::Data(params[i]) {
                    let s2 = s1.emit(Instruction::Argument { value: a.value });
                    lemma_then_emit(s, s1, Instruction::Argument { value: a.value });
                    lemma_arguments_frame(s2, arguments, i + 1, params, span);
                    lemma_keeps_chain(s, s2, lowered_arguments(s2, arguments, i + 1, params, span));
                }
            },
        }
    }
}

/// `lowered_literal` keeps the frame and the scopes.
pub proof fn lemma_literal_frame(s: State, e: SpecExpression, span: Span)
    ensures
        keeps(s, lowered_literal(s, e, span)),
    decreases e, 1int,
{
    unfold::lemma_lowered_literal(s, e, span);
    match e {
        SpecExpression::Function { params, return_type, body } => {
            lemma_routine_frame(s.unit, Seq::empty(), params, return_type, body, span);
            match lowered_routine(s.unit, Seq::empty(), params, return_type, body, span) {
                Err(_) => {},
                Ok((unit, routine)) => {
                    let lifted = State {
                        unit: Unit {
                            signatures: unit.signatures.push(routine.signature),
                            lifted: unit.lifted.push(routine),
                            ..unit
                        },
                        function: s.function,
                    };
                    assert(frame(s, lifted));
                    lemma_then_emit(
                        s,
                        lifted,
                        Instruction::FunctionRef { function: unit.signatures.len() as usize },
                    );
                },
            }
        },
        _ => {},
    }
}

/// A routine that is lowered only adds routines to the unit.
pub proof fn lemma_routine_frame(
    unit: Unit,
    name: Seq<char>,
    params: Seq<SpecParameter>,
    return_type: Type,
    body: SpecBlock,
    span: Span,
)
    ensures
        match lowered_routine(unit, name, params, return_type, body, span) {
            Ok((after, _)) => unit_extends(unit, after),
            Err(_) => true,
        },
    decreases body, 2int,
{
    unfold::lemma_lowered_routine(unit, name, params, return_type, body, span);
    lemma_block_frame(State { unit, function: super::rules::entry(params, return_type) }, body);
}

/// `lowered_block` keeps the frame and the scopes.
pub proof fn lemma_block_frame(s: State, block: SpecBlock)
    ensures
        keeps(s, lowered_block(s, block)),
    decreases block, 1int,
{
    unfold::lemma_lowered_block(s, block);
    let s0 = s.enter_scope();
    lemma_then_scopes(s, s, s0);
    lemma_statements_frame(s0, block.statements, 0);
    match lowered_statements(s0, block.statements, 0) {
        Err(_) => {},
        Ok((s1, _)) => {
            lemma_frame_chain(s, s0, s1);
            lemma_then_scopes(s, s1, s1.exit_scope());
            assert(s0.function.scopes.drop_last() =~= s.function.scopes);
        },
    }
}

/// `lowered_statements` keeps the frame and changes the innermost scope only.
pub proof fn lemma_statements_frame(s: State, statements: Seq<SpecStatement>, i: int)
    requires
        s.function.scopes.len() > 0,
    ensures
        keeps_outer(s, lowered_statements(s, statements, i)),
    decreases statements, statements.len() - i,
{
    unfold::lemma_lowered_statements(s, statements, i);
    if !(i < 0 || i >= statements.len()) {
        lemma_statement_frame(s, statements[i]);
        match lowered_statement(s, statements[i]) {
            Err(_) => {},
            Ok((s1, _)) => {
                lemma_statements_frame(s1, statements, i + 1);
                match lowered_statements(s1, statements, i + 1) {
                    Err(_) => {},
                    Ok((s2, _)) => {
                        lemma_frame_chain(s, s1, s2);
                    },
                }
            },
        }
    }
}

/// The blocks after a return keep the frame of `a`.
pub proof fn lemma_returned_frame(a: State, b: State, value: Option<usize>)
    requires
        frame(a, b),
    ensures
        frame(a, returned(b, value)),
        same_scopes(b, returned(b, value)),
{
    lemma_then_add_block(a, b);
    lemma_then_terminate(
        a,
        b.add_block(),
        Terminator::Return { value },
        b.function.next_block(),
    );
}

/// The blocks of a loop and the jump into its header keep the frame of `a`.
pub proof fn lemma_loop_entry_frame(a: State, b: State)
    requires
        frame(a, b),
    ensures
        frame(a, loop_entry(b)),
        same_scopes(b, loop_entry(b)),
        loop_entry(b).function.blocks.len() == b.function.blocks.len() + 3,
{
    lemma_then_add_block(a, b);
    lemma_then_add_block(a, b.add_block());
    lemma_then_add_block(a, b.add_block().add_block());
    lemma_then_terminate(
        a,
        b.add_block().add_block().add_block(),
        Terminator::Jump { target: b.function.next_block() },
        b.function.next_block(),
    );
}

/// The branch at the end of the header of a loop whose blocks were added
/// after `a` keeps the frame of `a`.
pub proof fn lemma_loop_branch_frame(a: State, b: State, header: usize, c: usize)
    requires
        frame(a, b),
        a.function.blocks.len() <= header,
        header + 3 <= b.function.blocks.len(),
    ensures
        frame(a, loop_branch(b, header, c)),
        same_scopes(b, loop_branch(b, header, c)),
{
    lemma_then_terminate(
        a,
        b,
        Terminator::Branch {
            condition: c,
            then_target: (header + 1) as usize,
            else_target: (header + 2) as usize,
        },
        (header + 1) as usize,
    );
}

/// The jump back at the end of the body of a loop whose blocks were added
/// after `a` keeps the frame of `a`.
pub proof fn lemma_loop_back_frame(a: State, b: State, header: usize)
    requires
        frame(a, b),
        a.function.blocks.len() <= header,
        header + 3 <= b.function.blocks.len(),
    ensures
        frame(a, loop_back(b, header)),
        same_scopes(b, loop_back(b, header)),
{
    lemma_then_terminate(a, b, Terminator::Jump { target: header }, (header + 2) as usize);
}

/// `lowered_statement` keeps the frame and changes the innermost scope only.
pub proof fn lemma_statement_frame(s: State, statement: SpecStatement)
    requires
        s.function.scopes.len() > 0,
    ensures
        keeps_outer(s, lowered_statement(s, statement)),
    decreases statement, 1int,
{
    unfold::lemma_lowered_statement(s, statement);
    match statement {
        SpecStatement::VariableDeclaration { .. } => {
            lemma_declaration_frame(s, statement);
        },
        SpecStatement::Assign { .. } => {
            lemma_assignment_frame(s, statement);
        },
        SpecStatement::Return { .. } => {
            lemma_return_frame(s, statement);
        },
        SpecStatement::Block { block, .. } => {
            lemma_block_frame(s, *block);
        },
        SpecStatement::If { .. } => {
            lemma_if_frame(s, statement);
        },
        SpecStatement::While { .. } => {
            lemma_while_frame(s, statement);
        },
        SpecStatement::Expression { expression, span } => {
            lemma_expression_frame(s, expression, span);
        },
        SpecStatement::DoUntil { .. } => {
            lemma_do_until_frame(s, statement);
        },
        SpecStatement::For { .. } => {
            lemma_for_frame(s, statement);
        },
    }
}

/// `lowered_declaration` keeps the frame and changes the innermost scope only.
pub proof fn lemma_declaration_frame(s: State, statement: SpecStatement)
    requires
        s.function.scopes.len() > 0,
    ensures
        keeps_outer(s, lowered_declaration(s, statement)),
    decreases statement, 0int,
{
    unfold::lemma_lowered_declaration(s, statement);
    match statement {
        SpecStatement::VariableDeclaration { ident, var_type, value, span } => {
            lemma_expression_frame(s, value, span);
            match lowered_expression(s, value, span) {
                Err(_) => {},
                Ok((s1, v)) => {
                    let slot = super::builder::Slot {
                        index: s1.function.next_slot(),
                        value_type: v.value_type,
                    };
                    let s2 = State { function: s1.function.add_slot(v.value_type), ..s1 };
                    lemma_then_add_slot(s, s1, v.value_type);
                    let s3 = State { function: s2.function.define(ident, slot), ..s2 };
                    lemma_then_scopes(s, s2, s3);
                    lemma_then_emit(
                        s,
                        s3,
                        Instruction::Store { slot: s1.function.next_slot(), value: v.value },
                    );
                    assert(s3.function.scopes.drop_last() =~= s.function.scopes.drop_last());
                },
            }
        },
        _ => {},
    }
}

/// `lowered_assignment` keeps the frame and the scopes.
pub proof fn lemma_assignment_frame(s: State, statement: SpecStatement)
    ensures
        keeps(s, lowered_assignment(s, statement)),
    decreases statement, 0int,
{
    unfold::lemma_lowered_assignment(s, statement);
    match statement {
        SpecStatement::Assign { ident, value, span } => {
            match s.function.lookup(ident) {
                None => {},
                Some(slot) => {
                    lemma_expression_frame(s, value, span);
                    match lowered_expression(s, value, span) {
                        Err(_) => {},
                        Ok((s1, v)) => {
                            lemma_then_emit(
                                s,
                                s1,
                                Instruction::Store { slot: slot.index, value: v.value },
                            );
                        },
                    }
                },
            }
        },
        _ => {},
    }
}

/// `lowered_return` keeps the frame and the scopes.
pub proof fn lemma_return_frame(s: State, statement: SpecStatement)
    ensures
        keeps(s, lowered_return(s, statement)),
    decreases statement, 0int,
{
    unfold::lemma_lowered_return(s, statement);
    match statement {
        SpecStatement::Return { value: Some(e), span } => {
            lemma_expression_frame(s, e, span);
            match lowered_expression(s, e, span) {
                Err(_) => {},
                Ok((s1, v)) => {
                    lemma_returned_frame(s, s1, None);
                    lemma_returned_frame(s, s1, Some(v.value));
                },
            }
        },
        SpecStatement::Return { value: None, span } => {
            lemma_returned_frame(s, s, None);
        },
        _ => {},
    }
}

/// `lowered_condition` keeps the frame and the scopes.
pub proof fn lemma_condition_frame(s: State, e: SpecExpression, span: Span)
    ensures
        keeps(s, lowered_condition(s, e, span)),
    decreases e, 3int,
{
    unfold::lemma_lowered_condition(s, e, span);
    lemma_expression_frame(s, e, span);
}

/// `lowered_if` keeps the frame and changes the innermost scope only.
pub proof fn lemma_if_frame(s: State, statement: SpecStatement)
    requires
        s.function.scopes.len() > 0,
    ensures
        keeps_outer(s, lowered_if(s, statement)),
    decreases statement, 0int,
{
    unfold::lemma_lowered_if(s, statement);
    match statement {
        SpecStatement::If { condition, then_branch, else_branch, span } => {
            lemma_condition_frame(s, condition, span);
            match lowered_condition(s, condition, span) {
                Err(_) => {},
                Ok((s1, c)) => {
                    let then_block = s1.function.next_block();
                    let other = (then_block + 1) as usize;
                    let branch = Terminator::Branch {
                        condition: c,
                        then_target: then_block,
                        else_target: other,
                    };
                    lemma_then_add_block(s, s1);
                    lemma_then_add_block(s, s1.add_block());
                    match else_branch {
                        None => {
                            let s2 = s1.add_block().add_block();
                            lemma_then_terminate(s, s2, branch, then_block);
                            let s3 = s2.terminate(branch, then_block);
                            lemma_statement_frame(s3, *then_branch);
                            match lowered_statement(s3, *then_branch) {
                                Err(_) => {},
                                Ok((s4, _)) => {
                                    lemma_frame_chain(s, s3, s4);
                                    lemma_then_terminate(
                                        s,
                                        s4,
                                        Terminator::Jump { target: other },
                                        other,
                                    );
                                },
                            }
                        },
                        Some(else_statement) => {
                            let continuation = (then_block + 2) as usize;
                            lemma_then_add_block(s, s1.add_block().add_block());
                            let s2 = s1.add_block().add_block().add_block();
                            lemma_then_terminate(s, s2, branch, then_block);
                            let s3 = s2.terminate(branch, then_block);
                            lemma_statement_frame(s3, *then_branch);
                            match lowered_statement(s3, *then_branch) {
                                Err(_) => {},
                                Ok((s4, _)) => {
                                    lemma_frame_chain(s, s3, s4);
                                    let jump = Terminator::Jump { target: continuation };
                                    lemma_then_terminate(s, s4, jump, other);
                                    let s5 = s4.terminate(jump, other);
                                    lemma_statement_frame(s5, *else_statement);
                                    match lowered_statement(s5, *else_statement) {
                                        Err(_) => {},
                                        Ok((s6, _)) => {
                                            lemma_frame_chain(s, s5, s6);
                                            lemma_then_terminate(s, s6, jump, continuation);
                                        },
                                    }
                                },
                            }
                        },
                    }
                },
            }
        },
        _ => {},
    }
}

/// `lowered_while` keeps the frame and the scopes.
pub proof fn lemma_while_frame(s: State, statement: SpecStatement)
    ensures
        keeps(s, lowered_while(s, statement)),
    decreases statement, 0int,
{
    unfold::lemma_lowered_while(s, statement);
    match statement {
        SpecStatement::While { condition, body, span } => {
            let header = s.function.next_block();
            lemma_loop_entry_frame(s, s);
            lemma_condition_frame(loop_entry(s), condition, span);
            match lowered_condition(loop_entry(s), condition, span) {
                Err(_) => {},
                Ok((s1, c)) => {
                    lemma_frame_chain(s, loop_entry(s), s1);
                    if s1.function.bounded() {
                        lemma_loop_branch_frame(s, s1, header, c);
                    }
                    let s2 = loop_branch(s1, header, c);
                    assert(frame(s, s2) && same_scopes(s, s2));
                    lemma_block_frame(s2, body);
                    match lowered_block(s2, body) {
                        Err(_) => {},
                        Ok((s3, _)) => {
                            lemma_frame_chain(s, s2, s3);
                            if s3.function.bounded() {
                                lemma_loop_back_frame(s, s3, header);
                            }
                        },
                    }
                },
            }
        },
        _ => {},
    }
}

/// `lowered_do_until` keeps the frame and changes the innermost scope only.
pub proof fn lemma_do_until_frame(s: State, statement: SpecStatement)
    requires
        s.function.scopes.len() > 0,
    ensures
        keeps_outer(s, lowered_do_until(s, statement)),
    decreases statement, 0int,
{
    unfold::lemma_lowered_do_until(s, statement);
    match statement {
        SpecStatement::DoUntil { condition, body, span } => {
            let body_block = s.function.next_block();
            let exit = (body_block + 1) as usize;
            lemma_then_add_block(s, s);
            lemma_then_add_block(s, s.add_block());
            let jump = Terminator::Jump { target: body_block };
            lemma_then_terminate(s, s.add_block().add_block(), jump, body_block);
            let s0 = s.add_block().add_block().terminate(jump, body_block);
            lemma_statement_frame(s0, *body);
            match lowered_statement(s0, *body) {
                Err(_) => {},
                Ok((s1, _)) => {
                    lemma_frame_chain(s, s0, s1);
                    lemma_condition_frame(s1, condition, span);
                    match lowered_condition(s1, condition, span) {
                        Err(_) => {},
                        Ok((s2, c)) => {
                            lemma_frame_chain(s, s1, s2);
                            lemma_then_terminate(
                                s,
                                s2,
                                Terminator::Branch {
                                    condition: c,
                                    then_target: exit,
                                    else_target: body_block,
                                },
                                exit,
                            );
                        },
                    }
                },
            }
        },
        _ => {},
    }
}

/// `lowered_for` keeps the frame and the scopes.
pub proof fn lemma_for_frame(s: State, statement: SpecStatement)
    ensures
        keeps(s, lowered_for(s, statement)),
    decreases statement, 0int,
{
    unfold::lemma_lowered_for(s, statement);
    match statement {
        SpecStatement::For { init, condition, increment, body, span } => {
            let s0 = s.enter_scope();
            lemma_then_scopes(s, s, s0);
            lemma_statement_frame(s0, *init);
            match lowered_statement(s0, *init) {
                Err(_) => {},
                Ok((s1, _)) => {
                    lemma_frame_chain(s, s0, s1);
                    let header = s1.function.next_block();
                    lemma_loop_entry_frame(s, s1);
                    lemma_condition_frame(loop_entry(s1), condition, span);
                    match lowered_condition(loop_entry(s1), condition, span) {
                        Err(_) => {},
                        Ok((s2, c)) => {
                            lemma_frame_chain(s, loop_entry(s1), s2);
                            if s2.function.bounded() {
                                lemma_loop_branch_frame(s, s2, header, c);
                            }
                            let s3 = loop_branch(s2, header, c);
                            assert(frame(s, s3));
                            let s4 = s3.enter_scope();
                            lemma_then_scopes(s, s3, s4);
                            lemma_block_frame(s4, body);
                            match lowered_block(s4, body) {
                                Err(_) => {},
                                Ok((s5, _)) => {
                                    lemma_frame_chain(s, s4, s5);
                                    lemma_statement_frame(s5, *increment);
                                    match lowered_statement(s5, *increment) {
                                        Err(_) => {},
                                        Ok((s6, _)) => {
                                            lemma_frame_chain(s, s5, s6);
                                            let s7 = s6.exit_scope();
                                            lemma_then_scopes(s, s6, s7);
                                            if s7.function.bounded() {
                                                lemma_loop_back_frame(s, s7, header);
                                            }
                                            let s8 = loop_back(s7, header);
                                            assert(frame(s, s8));
                                            lemma_then_scopes(s, s8, s8.exit_scope());
                                            assert(s0.function.scopes.drop_last()
                                                =~= s.function.scopes);
                                            assert(s4.function.scopes.drop_last()
                                                =~= s3.function.scopes);
                                            assert(s8.exit_scope().function.scopes
                                                =~= s.function.scopes);
                                        },
                                    }
                                },
                            }
                        },
                    }
                },
            }
        },
        _ => {},
    }
}

/// Shadowing does not leak: a block leaves the scope chain exactly as it
/// found it, whatever its statements declare.
pub proof fn lemma_block_restores_scopes(s: State, block: SpecBlock)
    ensures
        lowered_block(s, block) matches Ok((after, _)) ==> after.function.scopes
            == s.function.scopes,
{
    lemma_block_frame(s, block);
}

/// A name means after a block what it meant before the block.
pub proof fn lemma_block_keeps_meanings(s: State, block: SpecBlock, name: Seq<char>)
    ensures
        lowered_block(s, block) matches Ok((after, _)) ==> after.function.lookup(name)
            == s.function.lookup(name),
{
    lemma_block_frame(s, block);
}

/// The functions from index `i` on only add routines to the unit.
pub proof fn lemma_functions_frame(
    unit: Unit,
    functions: Seq<crate::ast::SpecFunction>,
    i: int,
    done: Seq<super::ir::SpecRoutine>,
)
    ensures
        super::rules::lowered_functions(unit, functions, i, done) matches Ok((after, _))
            ==> unit_extends(unit, after),
    decreases functions.len() - i,
{
    reveal(super::rules::lowered_functions);
    if 0 <= i < functions.len() {
        let f = functions[i];
        lemma_routine_frame(unit, f.ident, f.params, f.return_type, f.body, f.span);
        match lowered_routine(unit, f.ident, f.params, f.return_type, f.body, f.span) {
            Err(_) => {},
            Ok((unit1, routine)) => {
                lemma_functions_frame(unit1, functions, i + 1, done.push(routine));
                match super::rules::lowered_functions(unit1, functions, i + 1, done.push(routine)) {
                    Err(_) => {},
                    Ok((after, _)) => {
                        assert forall|k: int| 0 <= k < unit.signatures.len() implies #[trigger] after.signatures[k]
                            == unit.signatures[k] by {
                            assert(unit1.signatures[k] == unit.signatures[k]);
                        }
                        assert forall|k: int| 0 <= k < unit.lifted.len() implies #[trigger] after.lifted[k]
                            == unit.lifted[k] by {
                            assert(unit1.lifted[k] == unit.lifted[k]);
                        }
                    },
                }
            },
        }
    }
}

} // verus!
