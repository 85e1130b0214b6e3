//! Lowering yields well-formed modules.
//!
//! Every instruction that a rule appends takes its operands from earlier
//! instructions and names a slot, a literal and routines that exist; every
//! terminator names blocks that exist.  So the module that a program lowers
//! to is well formed, whatever the program.

use super::builder::{Slot, SpecBuilder, Typed};
use super::frame;
use super::frame::frame;
use super::ir::{
    block_wf, instruction_wf, terminator_wf, Instruction, Operation, SpecModule, SpecRoutine,
    Terminator, UnaryOperation, ValueType,
};
use super::rules::{
    assign_operation, bound_parameters, declared, entry, fall_through, find_function, finish_binary,
    finish_compound, finish_unary, logical_split, loop_back, loop_branch, loop_entry,
    lowered_arguments, lowered_assignment, lowered_binary, lowered_block, lowered_call,
    lowered_call_of, lowered_compound, lowered_condition, lowered_declaration, lowered_do_until,
    lowered_expression, lowered_for, lowered_functions, lowered_identifier, lowered_if,
    lowered_literal, lowered_logical, lowered_program, lowered_return, lowered_routine,
    lowered_statement, lowered_statements, lowered_step, lowered_unary, lowered_while,
    names_function, operation_of, returned, signature_of, Callee, State, Step, Unit,
};
use super::symbol_table::resolve;
use super::unfold;
use crate::ast::{
    BinaryOperator, SpecBlock, SpecExpression, SpecFunction, SpecParameter, SpecProgram,
    SpecStatement, Type, UnaryOperator,
};
use crate::error::Span;
use vstd::prelude::*;

verus! {

/// Whether every slot that the scopes bind exists.
pub open spec fn scopes_wf(scopes: Seq<Map<Seq<char>, Slot>>, slots: nat) -> bool {
    forall|k: int, name: Seq<char>|
        0 <= k < scopes.len() && (#[trigger] scopes[k].contains_key(name)) ==> scopes[k][name].index
            < slots
}

/// Whether a routine under construction is well formed so far, in a unit of
/// `routines` routines.
pub open spec fn builder_wf(f: SpecBuilder, routines: nat) -> bool {
    &&& f.current < f.blocks.len()
    &&& f.start <= f.code.len()
    &&& forall|i: int|
        0 <= i < f.code.len() ==> instruction_wf(
            #[trigger] f.code[i],
            i,
            f.slots.len(),
            f.floats.len(),
            routines,
        )
    &&& forall|b: int|
        0 <= b < f.blocks.len() ==> block_wf(#[trigger] f.blocks[b], f.blocks.len(), f.code.len())
    &&& scopes_wf(f.scopes, f.slots.len())
}

/// Whether a unit under construction is well formed so far: it has a
/// signature for every routine, and the function literals lowered so far are
/// well formed.
pub open spec fn unit_wf(unit: Unit) -> bool {
    &&& unit.signatures.len() == unit.names.len() + unit.lifted.len()
    &&& forall|r: int|
        0 <= r < unit.lifted.len() ==> (#[trigger] unit.lifted[r]).wf(unit.signatures.len())
}

/// Whether a state is well formed.
pub open spec fn state_wf(s: State) -> bool {
    &&& builder_wf(s.function, s.unit.signatures.len())
    &&& unit_wf(s.unit)
}

/// A well-formed instruction stays well formed where more slots, literals
/// and routines exist.
pub proof fn lemma_instruction_more(
    instruction: Instruction,
    at: int,
    slots: nat,
    floats: nat,
    routines: nat,
    more_slots: nat,
    more_floats: nat,
    more_routines: nat,
)
    requires
        instruction_wf(instruction, at, slots, floats, routines),
        slots <= more_slots,
        floats <= more_floats,
        routines <= more_routines,
    ensures
        instruction_wf(instruction, at, more_slots, more_floats, more_routines),
{
}

/// A well-formed routine stays well formed in a module of more routines.
pub proof fn lemma_routine_more(routine: SpecRoutine, routines: nat, more: nat)
    requires
        routine.wf(routines),
        routines <= more,
    ensures
        routine.wf(more),
{
    assert forall|i: int| 0 <= i < routine.code.len() implies instruction_wf(
        #[trigger] routine.code[i],
        i,
        routine.slots.len(),
        routine.floats.len(),
        more,
    ) by {
        lemma_instruction_more(
            routine.code[i],
            i,
            routine.slots.len(),
            routine.floats.len(),
            routines,
            routine.slots.len(),
            routine.floats.len(),
            more,
        );
    }
}

/// A well-formed builder stays well formed in a unit of more routines.
pub proof fn lemma_builder_more(f: SpecBuilder, routines: nat, more: nat)
    requires
        builder_wf(f, routines),
        routines <= more,
    ensures
        builder_wf(f, more),
{
    assert forall|i: int| 0 <= i < f.code.len() implies instruction_wf(
        #[trigger] f.code[i],
        i,
        f.slots.len(),
        f.floats.len(),
        more,
    ) by {
        lemma_instruction_more(
            f.code[i],
            i,
            f.slots.len(),
            f.floats.len(),
            routines,
            f.slots.len(),
            f.floats.len(),
            more,
        );
    }
}

/// A well-formed instruction, appended, leaves the builder well formed.
pub proof fn lemma_wf_emit(f: SpecBuilder, routines: nat, instruction: Instruction)
    requires
        builder_wf(f, routines),
        instruction_wf(instruction, f.code.len() as int, f.slots.len(), f.floats.len(), routines),
    ensures
        builder_wf(f.emit(instruction), routines),
{
    let g = f.emit(instruction);
    assert forall|i: int| 0 <= i < g.code.len() implies instruction_wf(
        #[trigger] g.code[i],
        i,
        g.slots.len(),
        g.floats.len(),
        routines,
    ) by {
        if i < f.code.len() {
            assert(g.code[i] == f.code[i]);
        }
    }
    assert forall|b: int| 0 <= b < g.blocks.len() implies block_wf(
        #[trigger] g.blocks[b],
        g.blocks.len(),
        g.code.len(),
    ) by {
        assert(block_wf(f.blocks[b], f.blocks.len(), f.code.len()));
    }
}

/// A block, added, leaves the builder well formed.
pub proof fn lemma_wf_add_block(f: SpecBuilder, routines: nat)
    requires
        builder_wf(f, routines),
    ensures
        builder_wf(f.add_block(), routines),
{
    let g = f.add_block();
    assert forall|b: int| 0 <= b < g.blocks.len() implies block_wf(
        #[trigger] g.blocks[b],
        g.blocks.len(),
        g.code.len(),
    ) by {
        if b < f.blocks.len() {
            assert(g.blocks[b] == f.blocks[b]);
            assert(block_wf(f.blocks[b], f.blocks.len(), f.code.len()));
        }
    }
}

/// A well-formed terminator that makes a block of the builder current
/// leaves the builder well formed.
pub proof fn lemma_wf_terminate(f: SpecBuilder, routines: nat, terminator: Terminator, next: usize)
    requires
        builder_wf(f, routines),
        f.code.len() <= usize::MAX,
        terminator_wf(terminator, f.blocks.len(), f.code.len()),
        next < f.blocks.len(),
    ensures
        builder_wf(f.terminate(terminator, next), routines),
{
    let g = f.terminate(terminator, next);
    assert forall|b: int| 0 <= b < g.blocks.len() implies block_wf(
        #[trigger] g.blocks[b],
        g.blocks.len(),
        g.code.len(),
    ) by {
        if b != f.current {
            assert(g.blocks[b] == f.blocks[b]);
            assert(block_wf(f.blocks[b], f.blocks.len(), f.code.len()));
        }
    }
}

/// A slot, added, leaves the builder well formed.
pub proof fn lemma_wf_add_slot(f: SpecBuilder, routines: nat, value_type: ValueType)
    requires
        builder_wf(f, routines),
    ensures
        builder_wf(f.add_slot(value_type), routines),
{
    let g = f.add_slot(value_type);
    assert forall|i: int| 0 <= i < g.code.len() implies instruction_wf(
        #[trigger] g.code[i],
        i,
        g.slots.len(),
        g.floats.len(),
        routines,
    ) by {
        lemma_instruction_more(
            f.code[i],
            i,
            f.slots.len(),
            f.floats.len(),
            routines,
            g.slots.len(),
            g.floats.len(),
            routines,
        );
    }
    assert forall|b: int| 0 <= b < g.blocks.len() implies block_wf(
        #[trigger] g.blocks[b],
        g.blocks.len(),
        g.code.len(),
    ) by {
        assert(block_wf(f.blocks[b], f.blocks.len(), f.code.len()));
    }
}

/// A literal, added, leaves the builder well formed.
pub proof fn lemma_wf_add_float(f: SpecBuilder, routines: nat, text: Seq<char>)
    requires
        builder_wf(f, routines),
    ensures
        builder_wf(f.add_float(text), routines),
{
    let g = f.add_float(text);
    assert forall|i: int| 0 <= i < g.code.len() implies instruction_wf(
        #[trigger] g.code[i],
        i,
        g.slots.len(),
        g.floats.len(),
        routines,
    ) by {
        lemma_instruction_more(
            f.code[i],
            i,
            f.slots.len(),
            f.floats.len(),
            routines,
            g.slots.len(),
            g.floats.len(),
            routines,
        );
    }
    assert forall|b: int| 0 <= b < g.blocks.len() implies block_wf(
        #[trigger] g.blocks[b],
        g.blocks.len(),
        g.code.len(),
    ) by {
        assert(block_wf(f.blocks[b], f.blocks.len(), f.code.len()));
    }
}

/// Scopes that are opened and discarded leave the builder well formed.
pub proof fn lemma_wf_scopes(f: SpecBuilder, routines: nat)
    requires
        builder_wf(f, routines),
    ensures
        builder_wf(f.enter_scope(), routines),
        builder_wf(f.exit_scope(), routines),
{
    let g = f.enter_scope();
    assert forall|k: int, name: Seq<char>|
        0 <= k < g.scopes.len() && (#[trigger] g.scopes[k].contains_key(name)) implies g.scopes[k][name].index
        < g.slots.len() by {
        if k < f.scopes.len() {
            assert(g.scopes[k] == f.scopes[k]);
            assert(f.scopes[k].contains_key(name));
        }
    }
    let h = f.exit_scope();
    assert forall|k: int, name: Seq<char>|
        0 <= k < h.scopes.len() && (#[trigger] h.scopes[k].contains_key(name)) implies h.scopes[k][name].index
        < h.slots.len() by {
        assert(h.scopes[k] == f.scopes[k]);
        assert(f.scopes[k].contains_key(name));
    }
}

/// A name bound to a slot that exists leaves the builder well formed.
pub proof fn lemma_wf_define(f: SpecBuilder, routines: nat, name: Seq<char>, slot: Slot)
    requires
        builder_wf(f, routines),
        slot.index < f.slots.len(),
    ensures
        builder_wf(f.define(name, slot), routines),
{
    let g = f.define(name, slot);
    assert forall|k: int, other: Seq<char>|
        0 <= k < g.scopes.len() && (#[trigger] g.scopes[k].contains_key(other)) implies g.scopes[k][other].index
        < g.slots.len() by {
        if f.scopes.len() > 0 {
            if k < f.scopes.len() - 1 {
                assert(g.scopes[k] == f.scopes[k]);
                assert(f.scopes[k].contains_key(other));
            } else if other != name {
                assert(f.scopes[k].contains_key(other));
            }
        }
    }
}

/// A name that the scopes bind is bound to a slot that exists.
pub proof fn lemma_lookup_wf(scopes: Seq<Map<Seq<char>, Slot>>, slots: nat, name: Seq<char>)
    requires
        scopes_wf(scopes, slots),
    ensures
        resolve(scopes, name) matches Some(slot) ==> slot.index < slots,
    decreases scopes.len(),
{
    if scopes.len() > 0 {
        if scopes.last().contains_key(name) {
            assert(scopes[scopes.len() - 1].contains_key(name));
        } else {
            let rest = scopes.drop_last();
            assert forall|k: int, other: Seq<char>|
                0 <= k < rest.len() && (#[trigger] rest[k].contains_key(other)) implies rest[k][other].index
                < slots by {
                assert(rest[k] == scopes[k]);
                assert(scopes[k].contains_key(other));
            }
            lemma_lookup_wf(rest, slots, name);
        }
    }
}

/// Whether the indices of a routine fit a machine word.
pub open spec fn routine_bounded(routine: SpecRoutine) -> bool {
    &&& routine.code.len() <= usize::MAX
    &&& routine.blocks.len() <= usize::MAX
    &&& routine.slots.len() <= usize::MAX
    &&& routine.floats.len() <= usize::MAX
}

/// Whether the indices of a state fit a machine word.
pub open spec fn state_bounded(s: State) -> bool {
    &&& s.function.bounded()
    &&& s.unit.signatures.len() <= usize::MAX
    &&& forall|r: int| 0 <= r < s.unit.lifted.len() ==> routine_bounded(#[trigger] s.unit.lifted[r])
}

/// A state that comes before a state whose indices fit a machine word has
/// indices that fit.
pub proof fn lemma_bounded_before(a: State, b: State)
    requires
        frame(a, b),
        state_bounded(b),
    ensures
        state_bounded(a),
{
    assert forall|r: int| 0 <= r < a.unit.lifted.len() implies routine_bounded(
        #[trigger] a.unit.lifted[r],
    ) by {
        assert(b.unit.lifted[r] == a.unit.lifted[r]);
    }
}

/// Whether a step from `s` that computed a value kept the frame and, from a
/// well-formed state, ended in a well-formed state with a value that an
/// instruction computed.
pub open spec fn wf_typed(s: State, r: Step<Typed>) -> bool {
    r matches Ok((after, v)) ==> frame(s, after) && (state_wf(s) && state_bounded(after)
        ==> state_wf(after) && v.value < after.function.code.len())
}

/// As `wf_typed`, for a step that is well formed only where `given` holds
/// of the state it starts from.
pub open spec fn wf_typed_given(s: State, r: Step<Typed>, given: bool) -> bool {
    r matches Ok((after, v)) ==> frame(s, after) && (state_wf(s) && state_bounded(after) && given
        ==> state_wf(after) && v.value < after.function.code.len())
}

/// Whether a step from `s` kept the frame and, from a well-formed state,
/// ended in a well-formed state.
pub open spec fn wf_plain<T>(s: State, r: Step<T>) -> bool {
    r matches Ok((after, _)) ==> frame(s, after) && (state_wf(s) && state_bounded(after)
        ==> state_wf(after))
}

/// An instruction appended to a well-formed state.
pub proof fn lemma_state_emit(s: State, instruction: Instruction)
    requires
        state_wf(s),
        instruction_wf(
            instruction,
            s.function.code.len() as int,
            s.function.slots.len(),
            s.function.floats.len(),
            s.unit.signatures.len(),
        ),
    ensures
        state_wf(s.emit(instruction)),
        frame(s, s.emit(instruction)),
{
    lemma_wf_emit(s.function, s.unit.signatures.len(), instruction);
    frame::lemma_then_emit(s, s, instruction);
}

/// An instruction that is appended and computes a value.
pub proof fn lemma_state_emitted(s: State, instruction: Instruction, value_type: ValueType)
    requires
        state_wf(s) ==> instruction_wf(
            instruction,
            s.function.code.len() as int,
            s.function.slots.len(),
            s.function.floats.len(),
            s.unit.signatures.len(),
        ),
    ensures
        wf_typed(s, s.emitted(instruction, value_type)),
{
    frame::lemma_then_emit(s, s, instruction);
    if state_wf(s) {
        lemma_state_emit(s, instruction);
    }
}

/// As `lemma_state_emitted`, for an instruction that is well formed where
/// `given` holds.
pub proof fn lemma_state_emitted_given(
    given: bool,
    s: State,
    instruction: Instruction,
    value_type: ValueType,
)
    requires
        state_wf(s) && given ==> instruction_wf(
            instruction,
            s.function.code.len() as int,
            s.function.slots.len(),
            s.function.floats.len(),
            s.unit.signatures.len(),
        ),
    ensures
        wf_typed_given(s, s.emitted(instruction, value_type), given),
{
    frame::lemma_then_emit(s, s, instruction);
    if state_wf(s) && given {
        lemma_state_emit(s, instruction);
    }
}

/// The function that a name finds is a routine of the unit.
pub proof fn lemma_find_function_in_range(names: Seq<Seq<char>>, name: Seq<char>, from: int)
    ensures
        find_function(names, name, from) matches Some(i) ==> i < names.len(),
    decreases names.len() - from,
{
    if 0 <= from < names.len() && names[from] != name {
        lemma_find_function_in_range(names, name, from + 1);
    }
}

/// `lowered_identifier` leaves a well-formed state well formed.
pub proof fn lemma_identifier_wf(s: State, ident: Seq<char>, span: Span)
    ensures
        wf_typed(s, lowered_identifier(s, ident, span)),
{
    reveal(lowered_identifier);
    if state_wf(s) {
        lemma_lookup_wf(s.function.scopes, s.function.slots.len(), ident);
    }
    lemma_find_function_in_range(s.unit.names, ident, 0);
    match s.function.lookup(ident) {
        Some(slot) => {
            lemma_state_emitted(s, Instruction::Load { slot: slot.index }, slot.value_type);
        },
        None => {
            match find_function(s.unit.names, ident, 0) {
                Some(function) => {
                    lemma_state_emitted(
                        s,
                        Instruction::FunctionRef { function },
                        ValueType::Function(function),
                    );
                },
                None => {},
            }
        },
    }
}

/// `finish_binary` leaves a well-formed state well formed.
pub proof fn lemma_finish_binary_wf(
    s: State,
    operator: BinaryOperator,
    l: Typed,
    r: Typed,
    span: Span,
)
    ensures
        wf_typed_given(
            s,
            finish_binary(s, operator, l, r, span),
            l.value < s.function.code.len() && r.value < s.function.code.len(),
        ),
{
    reveal(finish_binary);
    match finish_binary(s, operator, l, r, span) {
        Ok(_) => {
            lemma_state_emitted_given(
                l.value < s.function.code.len() && r.value < s.function.code.len(),
                s,
                Instruction::Binary {
                    operation: operation_of(operator)->0,
                    operand_type: l.value_type->Data_0,
                    left: l.value,
                    right: r.value,
                },
                ValueType::Data(
                    super::rules::result_type(operation_of(operator)->0, l.value_type->Data_0),
                ),
            );
        },
        Err(_) => {},
    }
}

/// `finish_unary` leaves a well-formed state well formed.
pub proof fn lemma_finish_unary_wf(s: State, operator: UnaryOperator, r: Typed, span: Span)
    ensures
        wf_typed_given(s, finish_unary(s, operator, r, span), r.value < s.function.code.len()),
{
    reveal(finish_unary);
    match finish_unary(s, operator, r, span) {
        Ok(_) => {
            lemma_state_emitted_given(
                r.value < s.function.code.len(),
                s,
                Instruction::Unary {
                    operation: UnaryOperation::Negate,
                    operand_type: Type::Int,
                    operand: r.value,
                },
                ValueType::Data(Type::Int),
            );
            lemma_state_emitted_given(
                r.value < s.function.code.len(),
                s,
                Instruction::Unary {
                    operation: UnaryOperation::Negate,
                    operand_type: Type::Float,
                    operand: r.value,
                },
                ValueType::Data(Type::Float),
            );
            lemma_state_emitted_given(
                r.value < s.function.code.len(),
                s,
                Instruction::Unary {
                    operation: UnaryOperation::Not,
                    operand_type: Type::Bool,
                    operand: r.value,
                },
                ValueType::Data(Type::Bool),
            );
        },
        Err(_) => {},
    }
}

/// `lowered_step` leaves a well-formed state well formed.
pub proof fn lemma_step_wf(
    s: State,
    target: SpecExpression,
    increment: bool,
    prefix: bool,
    span: Span,
)
    ensures
        wf_typed(s, lowered_step(s, target, increment, prefix, span)),
{
    reveal(lowered_step);
    frame::lemma_step_frame(s, target, increment, prefix, span);
    match lowered_step(s, target, increment, prefix, span) {
        Ok((after, _)) => {
            if state_wf(s) && state_bounded(after) {
                let slot = s.function.lookup(target->ident)->0;
                lemma_lookup_wf(s.function.scopes, s.function.slots.len(), target->ident);
                let old_value = s.function.next_value();
                let one = (old_value + 1) as usize;
                let new_value = (old_value + 2) as usize;
                let i1 = Instruction::Load { slot: slot.index };
                let i2 = Instruction::IntConst { value: 1 };
                let i3 = Instruction::Binary {
                    operation: if increment {
                        Operation::Add
                    } else {
                        Operation::Subtract
                    },
                    operand_type: Type::Int,
                    left: old_value,
                    right: one,
                };
                let i4 = Instruction::Store { slot: slot.index, value: new_value };
                lemma_state_emit(s, i1);
                lemma_state_emit(s.emit(i1), i2);
                lemma_state_emit(s.emit(i1).emit(i2), i3);
                lemma_state_emit(s.emit(i1).emit(i2).emit(i3), i4);
            }
        },
        Err(_) => {},
    }
}

/// `finish_compound` leaves a well-formed state well formed.
pub proof fn lemma_finish_compound_wf(
    s: State,
    slot: Slot,
    operation: Operation,
    r: Typed,
    span: Span,
)
    ensures
        wf_typed_given(
            s,
            finish_compound(s, slot, operation, r, span),
            r.value < s.function.code.len() && slot.index < s.function.slots.len(),
        ),
{
    reveal(finish_compound);
    frame::lemma_finish_compound_frame(s, slot, operation, r, span);
    match finish_compound(s, slot, operation, r, span) {
        Ok((after, _)) => {
            if state_wf(s) && state_bounded(after) && r.value < s.function.code.len()
                && slot.index < s.function.slots.len() {
                let old_value = s.function.next_value();
                let new_value = (old_value + 1) as usize;
                let i1 = Instruction::Load { slot: slot.index };
                let i2 = Instruction::Binary {
                    operation,
                    operand_type: slot.value_type->Data_0,
                    left: old_value,
                    right: r.value,
                };
                let i3 = Instruction::Store { slot: slot.index, value: new_value };
                lemma_state_emit(s, i1);
                lemma_state_emit(s.emit(i1), i2);
                lemma_state_emit(s.emit(i1).emit(i2), i3);
            }
        },
        Err(_) => {},
    }
}

/// A block added to a well-formed state.
pub proof fn lemma_state_add_block(s: State)
    requires
        state_wf(s),
    ensures
        state_wf(s.add_block()),
{
    lemma_wf_add_block(s.function, s.unit.signatures.len());
}

/// A terminator that closes the current block of a well-formed state.
pub proof fn lemma_state_terminate(s: State, terminator: Terminator, next: usize)
    requires
        state_wf(s),
        s.function.code.len() <= usize::MAX,
        terminator_wf(terminator, s.function.blocks.len(), s.function.code.len()),
        next < s.function.blocks.len(),
    ensures
        state_wf(s.terminate(terminator, next)),
{
    lemma_wf_terminate(s.function, s.unit.signatures.len(), terminator, next);
}

/// The split after the left operand of a logical operator, from a
/// well-formed state.
pub proof fn lemma_logical_split_wf(s: State, l: Typed, is_or: bool)
    requires
        state_wf(s),
        state_bounded(logical_split(s, l, is_or)),
        l.value < s.function.code.len(),
    ensures
        state_wf(logical_split(s, l, is_or)),
{
    let slot = s.function.next_slot();
    let right_block = s.function.next_block();
    let meet = (right_block + 1) as usize;
    let s1 = State { function: s.function.add_slot(ValueType::Data(Type::Bool)), ..s };
    lemma_wf_add_slot(s.function, s.unit.signatures.len(), ValueType::Data(Type::Bool));
    let s2 = s1.emit(Instruction::Store { slot, value: l.value });
    lemma_state_emit(s1, Instruction::Store { slot, value: l.value });
    lemma_state_add_block(s2);
    lemma_state_add_block(s2.add_block());
    let s4 = s2.add_block().add_block();
    let terminator = if is_or {
        Terminator::Branch { condition: l.value, then_target: meet, else_target: right_block }
    } else {
        Terminator::Branch { condition: l.value, then_target: right_block, else_target: meet }
    };
    lemma_state_terminate(s4, terminator, right_block);
}

/// `lowered_expression` leaves a well-formed state well formed.
pub proof fn lemma_expression_wf(s: State, e: SpecExpression, span: Span)
    ensures
        wf_typed(s, lowered_expression(s, e, span)),
    decreases e, 2int,
{
    unfold::lemma_lowered_expression(s, e, span);
    match e {
        SpecExpression::IntegerLiteral { value } => {
            lemma_state_emitted(s, Instruction::IntConst { value }, ValueType::Data(Type::Int));
        },
        SpecExpression::FloatLiteral { value } => {
            frame::lemma_expression_frame(s, e, span);
            let s1 = State { function: s.function.add_float(value), ..s };
            let literal = Instruction::FloatConst { literal: s.function.next_float() };
            if state_wf(s) && state_bounded(s1.emit(literal)) {
                lemma_wf_add_float(s.function, s.unit.signatures.len(), value);
                lemma_state_emit(s1, literal);
            }
        },
        SpecExpression::StringLiteral { .. } => {},
        SpecExpression::BooleanLiteral { value } => {
            lemma_state_emitted(s, Instruction::BoolConst { value }, ValueType::Data(Type::Bool));
        },
        SpecExpression::NullLiteral => {
            lemma_state_emitted(s, Instruction::NullConst, ValueType::Data(Type::Null));
        },
        SpecExpression::Identifier { ident } => {
            lemma_identifier_wf(s, ident, span);
        },
        SpecExpression::Binary { operator, .. } => {
            if operator is And || operator is Or {
                lemma_logical_wf(s, e, span);
            } else {
                lemma_binary_wf(s, e, span);
            }
        },
        SpecExpression::Unary { .. } => {
            lemma_unary_wf(s, e, span);
        },
        SpecExpression::Grouping { expression } => {
            lemma_expression_wf(s, *expression, span);
        },
        SpecExpression::Function { .. } => {
            lemma_literal_wf(s, e, span);
        },
        SpecExpression::Call { .. } => {
            lemma_call_wf(s, e, span);
        },
        SpecExpression::Postfix { left, operator } => {
            lemma_step_wf(s, *left, operator is PlusPlus, false, span);
        },
        SpecExpression::Prefix { operator, right } => {
            lemma_step_wf(s, *right, operator is PlusPlus, true, span);
        },
        SpecExpression::Assign { .. } => {
            lemma_compound_wf(s, e, span);
        },
    }
}

/// `lowered_binary` leaves a well-formed state well formed.
pub proof fn lemma_binary_wf(s: State, e: SpecExpression, span: Span)
    ensures
        wf_typed(s, lowered_binary(s, e, span)),
    decreases e, 1int,
{
    unfold::lemma_lowered_binary(s, e, span);
    frame::lemma_binary_frame(s, e, span);
    match e {
        SpecExpression::Binary { left, operator, right } => {
            lemma_expression_wf(s, *left, span);
            match lowered_expression(s, *left, span) {
                Err(_) => {},
                Ok((s1, l)) => {
                    lemma_expression_wf(s1, *right, span);
                    match lowered_expression(s1, *right, span) {
                        Err(_) => {},
                        Ok((s2, r)) => {
                            match finish_binary(s2, operator, l, r, span) {
                                Err(_) => {},
                                Ok((after, _)) => {
                                    frame::lemma_finish_binary_frame(s2, operator, l, r, span);
                                    if state_wf(s) && state_bounded(after) {
                                        lemma_bounded_before(s2, after);
                                        lemma_bounded_before(s1, s2);
                                    }
                                    lemma_finish_binary_wf(s2, operator, l, r, span);
                                },
                            }
                        },
                    }
                },
            }
        },
        _ => {},
    }
}

/// `lowered_logical` leaves a well-formed state well formed.
pub proof fn lemma_logical_wf(s: State, e: SpecExpression, span: Span)
    ensures
        wf_typed(s, lowered_logical(s, e, span)),
    decreases e, 1int,
{
    unfold::lemma_lowered_logical(s, e, span);
    frame::lemma_logical_frame(s, e, span);
    match e {
        SpecExpression::Binary { left, operator, right } => {
            lemma_expression_wf(s, *left, span);
            match lowered_expression(s, *left, span) {
                Err(_) => {},
                Ok((s1, l)) => {
                    let split = logical_split(s1, l, operator is Or);
                    frame::lemma_logical_split_frame(s1, s1, l, operator is Or);
                    lemma_expression_wf(split, *right, span);
                    match lowered_expression(split, *right, span) {
                        Err(_) => {},
                        Ok((s2, r)) => {
                            let slot = s1.function.next_slot();
                            let meet = (s1.function.next_block() + 1) as usize;
                            let store = Instruction::Store { slot, value: r.value };
                            let jump = Terminator::Jump { target: meet };
                            let load = Instruction::Load { slot };
                            let s3 = s2.emit(store);
                            let s4 = s3.terminate(jump, meet);
                            let after = s4.emit(load);
                            if state_wf(s) && state_bounded(after) && r.value_type
                                == ValueType::Data(Type::Bool) && l.value_type == ValueType::Data(
                                Type::Bool,
                            ) {
                                assert(state_bounded(s2));
                                lemma_bounded_before(split, s2);
                                lemma_bounded_before(s1, split);
                                lemma_logical_split_wf(s1, l, operator is Or);
                                lemma_state_emit(s2, store);
                                lemma_state_terminate(s3, jump, meet);
                                lemma_state_emit(s4, load);
                            }
                        },
                    }
                },
            }
        },
        _ => {},
    }
}

/// `lowered_unary` leaves a well-formed state well formed.
pub proof fn lemma_unary_wf(s: State, e: SpecExpression, span: Span)
    ensures
        wf_typed(s, lowered_unary(s, e, span)),
    decreases e, 1int,
{
    unfold::lemma_lowered_unary(s, e, span);
    frame::lemma_unary_frame(s, e, span);
    match e {
        SpecExpression::Unary { operator, right } => {
            lemma_expression_wf(s, *right, span);
            match lowered_expression(s, *right, span) {
                Err(_) => {},
                Ok((s1, r)) => {
                    match finish_unary(s1, operator, r, span) {
                        Err(_) => {},
                        Ok((after, _)) => {
                            frame::lemma_finish_unary_frame(s1, operator, r, span);
                            if state_wf(s) && state_bounded(after) {
                                lemma_bounded_before(s1, after);
                            }
                            lemma_finish_unary_wf(s1, operator, r, span);
                        },
                    }
                },
            }
        },
        _ => {},
    }
}

/// `lowered_compound` leaves a well-formed state well formed.
pub proof fn lemma_compound_wf(s: State, e: SpecExpression, span: Span)
    ensures
        wf_typed(s, lowered_compound(s, e, span)),
    decreases e, 1int,
{
    unfold::lemma_lowered_compound(s, e, span);
    frame::lemma_compound_frame(s, e, span);
    match e {
        SpecExpression::Assign { left, operator, right } => {
            match *left {
                SpecExpression::Identifier { ident } => {
                    match s.function.lookup(ident) {
                        None => {},
                        Some(slot) => {
                            lemma_expression_wf(s, *right, span);
                            match lowered_expression(s, *right, span) {
                                Err(_) => {},
                                Ok((s1, r)) => {
                                    let operation = assign_operation(operator);
                                    match finish_compound(s1, slot, operation, r, span) {
                                        Err(_) => {},
                                        Ok((after, _)) => {
                                            frame::lemma_finish_compound_frame(
                                                s1,
                                                slot,
                                                operation,
                                                r,
                                                span,
                                            );
                                            if state_wf(s) && state_bounded(after) {
                                                lemma_bounded_before(s1, after);
                                                lemma_lookup_wf(
                                                    s.function.scopes,
                                                    s.function.slots.len(),
                                                    ident,
                                                );
                                            }
                                            lemma_finish_compound_wf(s1, slot, operation, r, span);
                                        },
                                    }
                                },
                            }
                        },
                    }
                },
                _ => {},
            }
        },
        _ => {},
    }
}

/// `lowered_call` leaves a well-formed state well formed.
pub proof fn lemma_call_wf(s: State, e: SpecExpression, span: Span)
    ensures
        wf_typed(s, lowered_call(s, e, span)),
    decreases e, 1int,
{
    unfold::lemma_lowered_call(s, e, span);
    frame::lemma_call_frame(s, e, span);
    match e {
        SpecExpression::Call { callee, arguments } => {
            if names_function(s, *callee) {
                let function = find_function(s.unit.names, callee->ident, 0)->0;
                lemma_call_of_wf(s, Callee::Direct { function }, e, span);
            } else {
                lemma_expression_wf(s, *callee, span);
                match lowered_expression(s, *callee, span) {
                    Err(_) => {},
                    Ok((s1, c)) => {
                        match c.value_type {
                            ValueType::Function(function) => {
                                let target = Callee::Indirect { callee: c.value, function };
                                frame::lemma_call_of_frame(s1, target, e, span);
                                match lowered_call_of(s1, target, e, span) {
                                    Err(_) => {},
                                    Ok((after, _)) => {
                                        if state_wf(s) && state_bounded(after) {
                                            lemma_bounded_before(s1, after);
                                        }
                                        lemma_call_of_wf(s1, target, e, span);
                                    },
                                }
                            },
                            _ => {},
                        }
                    },
                }
            }
        },
        _ => {},
    }
}

/// `lowered_call_of` leaves a well-formed state well formed.
pub proof fn lemma_call_of_wf(s: State, callee: Callee, e: SpecExpression, span: Span)
    ensures
        wf_typed_given(
            s,
            lowered_call_of(s, callee, e, span),
            callee matches Callee::Indirect { callee: c, .. } ==> c < s.function.code.len(),
        ),
    decreases e, 0int,
{
    unfold::lemma_lowered_call_of(s, callee, e, span);
    frame::lemma_call_of_frame(s, callee, e, span);
    match e {
        SpecExpression::Call { arguments, .. } => {
            if callee.function() < s.unit.signatures.len() && arguments.len()
                == s.unit.signatures[callee.function() as int].params.len() {
                let params = s.unit.signatures[callee.function() as int].params;
                lemma_arguments_wf(s, arguments, 0, params, span);
                match lowered_arguments(s, arguments, 0, params, span) {
                    Err(_) => {},
                    Ok((s1, _)) => {
                        let call = callee.instruction(arguments.len() as usize);
                        frame::lemma_then_emit(s1, s1, call);
                        if state_wf(s) && state_bounded(s1.emit(call)) && (
                        callee matches Callee::Indirect { callee: c, .. } ==> c
                            < s.function.code.len()) {
                            lemma_bounded_before(s1, s1.emit(call));
                            lemma_state_emit(s1, call);
                        }
                    },
                }
            }
        },
        _ => {},
    }
}

/// `lowered_arguments` leaves a well-formed state well formed.
pub proof fn lemma_arguments_wf(
    s: State,
    arguments: Seq<SpecExpression>,
    i: int,
    params: Seq<Type>,
    span: Span,
)
    ensures
        wf_plain(s, lowered_arguments(s, arguments, i, params, span)),
    decreases arguments, arguments.len() - i,
{
    unfold::lemma_lowered_arguments(s, arguments, i, params, span);
    frame::lemma_arguments_frame(s, arguments, i, params, span);
    if !(i < 0 || i >= arguments.len() || i >= params.len()) {
        lemma_expression_wf(s, arguments[i], span);
        match lowered_expression(s, arguments[i], span) {
            Err(_) => {},
            Ok((s1, a)) => {
                if a.value_type == ValueType::Data(params[i]) {
                    let argument = Instruction::Argument { value: a.value };
                    let s2 = s1.emit(argument);
                    frame::lemma_then_emit(s1, s1, argument);
                    lemma_arguments_wf(s2, arguments, i + 1, params, span);
                    match lowered_arguments(s2, arguments, i + 1, params, span) {
                        Err(_) => {},
                        Ok((after, _)) => {
                            if state_wf(s) && state_bounded(after) {
                                lemma_bounded_before(s2, after);
                                lemma_bounded_before(s1, s2);
                                lemma_state_emit(s1, argument);
                            }
                        },
                    }
                }
            },
        }
    }
}

/// `lowered_literal` leaves a well-formed state well formed.
pub proof fn lemma_literal_wf(s: State, e: SpecExpression, span: Span)
    ensures
        wf_typed(s, lowered_literal(s, e, span)),
    decreases e, 1int,
{
    unfold::lemma_lowered_literal(s, e, span);
    frame::lemma_literal_frame(s, e, span);
    match e {
        SpecExpression::Function { params, return_type, body } => {
            lemma_routine_wf(s.unit, Seq::empty(), params, return_type, body, span);
            frame::lemma_routine_frame(s.unit, Seq::empty(), params, return_type, body, span);
            match lowered_routine(s.unit, Seq::empty(), params, return_type, body, span) {
                Err(_) => {},
                Ok((unit, routine)) => {
                    let lifted = State {
                        unit: Unit {
                            signatures: unit.signatures.push(routine.signature),
                            lifted: unit.lifted.push(routine),
                            ..unit
                        },
                        function: s.function,
                    };
                    let reference = Instruction::FunctionRef {
                        function: unit.signatures.len() as usize,
                    };
                    let after = lifted.emit(reference);
                    if state_wf(s) && state_bounded(after) {
                        assert(routine_bounded(lifted.unit.lifted[unit.lifted.len() as int]));
                        assert forall|r: int| 0 <= r < unit.lifted.len() implies routine_bounded(
                            #[trigger] unit.lifted[r],
                        ) by {
                            assert(lifted.unit.lifted[r] == unit.lifted[r]);
                        }
                        assert(unit_wf(unit) && routine.wf(unit.signatures.len()));
                        lemma_routine_more(
                            routine,
                            unit.signatures.len(),
                            lifted.unit.signatures.len(),
                        );
                        assert forall|r: int| 0 <= r < lifted.unit.lifted.len() implies (
                        #[trigger] lifted.unit.lifted[r]).wf(lifted.unit.signatures.len()) by {
                            if r < unit.lifted.len() {
                                lemma_routine_more(
                                    unit.lifted[r],
                                    unit.signatures.len(),
                                    lifted.unit.signatures.len(),
                                );
                            }
                        }
                        lemma_builder_more(
                            s.function,
                            s.unit.signatures.len(),
                            lifted.unit.signatures.len(),
                        );
                        lemma_state_emit(lifted, reference);
                    }
                },
            }
        },
        _ => {},
    }
}

/// The builder at the entry of a function is well formed, with a slot for
/// every parameter.
pub proof fn lemma_entry_wf(params: Seq<SpecParameter>, return_type: Type, routines: nat)
    requires
        params.len() <= usize::MAX,
    ensures
        builder_wf(entry(params, return_type), routines),
        entry(params, return_type).slots.len() == params.len(),
{
    let start = SpecBuilder::empty(return_type).enter_scope();
    assert(builder_wf(start, routines)) by {
        assert forall|k: int, name: Seq<char>|
            0 <= k < start.scopes.len() && (#[trigger] start.scopes[k].contains_key(
                name,
            )) implies start.scopes[k][name].index < start.slots.len() by {}
    }
    lemma_bound_parameters_wf(start, params, 0, routines);
}

/// Binding the parameters from index `i` on leaves the builder well formed.
pub proof fn lemma_bound_parameters_wf(
    f: SpecBuilder,
    params: Seq<SpecParameter>,
    i: int,
    routines: nat,
)
    requires
        0 <= i <= params.len(),
        params.len() <= usize::MAX,
        f.slots.len() == i,
        builder_wf(f, routines),
    ensures
        builder_wf(bound_parameters(f, params, i), routines),
        bound_parameters(f, params, i).slots.len() == params.len(),
    decreases params.len() - i,
{
    if i < params.len() {
        let value_type = ValueType::Data(params[i].param_type);
        let g = f.add_slot(value_type);
        lemma_wf_add_slot(f, routines, value_type);
        let slot = Slot { index: f.next_slot(), value_type };
        lemma_wf_define(g, routines, params[i].ident, slot);
        lemma_bound_parameters_wf(g.define(params[i].ident, slot), params, i + 1, routines);
    }
}

/// A function lowers to a well-formed routine, in a unit that stays well
/// formed.
pub proof fn lemma_routine_wf(
    unit: Unit,
    name: Seq<char>,
    params: Seq<SpecParameter>,
    return_type: Type,
    body: SpecBlock,
    span: Span,
)
    ensures
        lowered_routine(unit, name, params, return_type, body, span) matches Ok((after, routine))
            ==> (unit_wf(unit) && routine_bounded(routine) && after.signatures.len() <= usize::MAX
            && (forall|r: int|
            0 <= r < after.lifted.len() ==> routine_bounded(#[trigger] after.lifted[r]))
            ==> unit_wf(after) && routine.wf(after.signatures.len())),
    decreases body, 2int,
{
    unfold::lemma_lowered_routine(unit, name, params, return_type, body, span);
    let s = State { unit, function: entry(params, return_type) };
    lemma_block_wf(s, body);
    match lowered_block(s, body) {
        Err(_) => {},
        Ok((s1, _)) => {
            let closed = s1.function.terminate(fall_through(return_type), s1.function.current);
            let routine = closed.routine(name, signature_of(params, return_type));
            if unit_wf(unit) && routine_bounded(routine) && s1.unit.signatures.len() <= usize::MAX
                && (forall|r: int|
                0 <= r < s1.unit.lifted.len() ==> routine_bounded(#[trigger] s1.unit.lifted[r])) {
                assert(state_bounded(s1));
                assert(params.len() <= usize::MAX) by {
                    assert(s.function.slots.len() <= s1.function.slots.len());
                    lemma_entry_slots(params, return_type);
                }
                lemma_entry_wf(params, return_type, unit.signatures.len());
                assert(state_wf(s));
                lemma_state_terminate(s1, fall_through(return_type), s1.function.current);
                assert(signature_of(params, return_type).params.len() == params.len());
            }
        },
    }
}

/// The builder at the entry of a function has a slot for every parameter.
pub proof fn lemma_entry_slots(params: Seq<SpecParameter>, return_type: Type)
    ensures
        entry(params, return_type).slots.len() == params.len(),
{
    lemma_bound_parameters_slots(SpecBuilder::empty(return_type).enter_scope(), params, 0);
}

/// Binding the parameters from index `i` on adds a slot for each.
pub proof fn lemma_bound_parameters_slots(f: SpecBuilder, params: Seq<SpecParameter>, i: int)
    requires
        0 <= i <= params.len(),
        f.slots.len() == i,
    ensures
        bound_parameters(f, params, i).slots.len() == params.len(),
    decreases params.len() - i,
{
    if i < params.len() {
        let value_type = ValueType::Data(params[i].param_type);
        let slot = Slot { index: f.next_slot(), value_type };
        lemma_bound_parameters_slots(
            f.add_slot(value_type).define(params[i].ident, slot),
            params,
            i + 1,
        );
    }
}

/// `lowered_block` leaves a well-formed state well formed.
pub proof fn lemma_block_wf(s: State, block: SpecBlock)
    ensures
        wf_plain(s, lowered_block(s, block)),
    decreases block, 1int,
{
    unfold::lemma_lowered_block(s, block);
    frame::lemma_block_frame(s, block);
    let s0 = s.enter_scope();
    lemma_statements_wf(s0, block.statements, 0);
    match lowered_statements(s0, block.statements, 0) {
        Err(_) => {},
        Ok((s1, _)) => {
            if state_wf(s) && state_bounded(s1.exit_scope()) {
                lemma_wf_scopes(s.function, s.unit.signatures.len());
                assert(state_bounded(s1));
                lemma_wf_scopes(s1.function, s1.unit.signatures.len());
            }
        },
    }
}

/// `lowered_statements` leaves a well-formed state well formed.
pub proof fn lemma_statements_wf(s: State, statements: Seq<SpecStatement>, i: int)
    ensures
        wf_plain(s, lowered_statements(s, statements, i)),
    decreases statements, statements.len() - i,
{
    unfold::lemma_lowered_statements(s, statements, i);
    frame::lemma_frame_start(s);
    if !(i < 0 || i >= statements.len()) {
        lemma_statement_wf(s, statements[i]);
        match lowered_statement(s, statements[i]) {
            Err(_) => {},
            Ok((s1, _)) => {
                lemma_statements_wf(s1, statements, i + 1);
                match lowered_statements(s1, statements, i + 1) {
                    Err(_) => {},
                    Ok((s2, _)) => {
                        frame::lemma_frame_chain(s, s1, s2);
                        if state_wf(s) && state_bounded(s2) {
                            lemma_bounded_before(s1, s2);
                        }
                    },
                }
            },
        }
    }
}

/// `lowered_statement` leaves a well-formed state well formed.
pub proof fn lemma_statement_wf(s: State, statement: SpecStatement)
    ensures
        wf_plain(s, lowered_statement(s, statement)),
    decreases statement, 1int,
{
    unfold::lemma_lowered_statement(s, statement);
    match statement {
        SpecStatement::VariableDeclaration { .. } => {
            lemma_declaration_wf(s, statement);
        },
        SpecStatement::Assign { .. } => {
            lemma_assignment_wf(s, statement);
        },
        SpecStatement::Return { .. } => {
            lemma_return_wf(s, statement);
        },
        SpecStatement::Block { block, .. } => {
            lemma_block_wf(s, *block);
        },
        SpecStatement::If { .. } => {
            lemma_if_wf(s, statement);
        },
        SpecStatement::While { .. } => {
            lemma_while_wf(s, statement);
        },
        SpecStatement::Expression { expression, span } => {
            lemma_expression_wf(s, expression, span);
        },
        SpecStatement::DoUntil { .. } => {
            lemma_do_until_wf(s, statement);
        },
        SpecStatement::For { .. } => {
            lemma_for_wf(s, statement);
        },
    }
}

/// `lowered_declaration` leaves a well-formed state well formed.
pub proof fn lemma_declaration_wf(s: State, statement: SpecStatement)
    ensures
        wf_plain(s, lowered_declaration(s, statement)),
    decreases statement, 0int,
{
    unfold::lemma_lowered_declaration(s, statement);
    match statement {
        SpecStatement::VariableDeclaration { ident, var_type, value, span } => {
            lemma_expression_wf(s, value, span);
            match lowered_expression(s, value, span) {
                Err(_) => {},
                Ok((s1, v)) => {
                    let slot = Slot { index: s1.function.next_slot(), value_type: v.value_type };
                    let s2 = State { function: s1.function.add_slot(v.value_type), ..s1 };
                    frame::lemma_then_add_slot(s, s1, v.value_type);
                    let s3 = State { function: s2.function.define(ident, slot), ..s2 };
                    frame::lemma_then_scopes(s, s2, s3);
                    let store = Instruction::Store { slot: s1.function.next_slot(), value: v.value };
                    frame::lemma_then_emit(s, s3, store);
                    if state_wf(s) && state_bounded(s3.emit(store)) {
                        assert(state_bounded(s1));
                        lemma_wf_add_slot(s1.function, s1.unit.signatures.len(), v.value_type);
                        lemma_wf_define(s2.function, s2.unit.signatures.len(), ident, slot);
                        lemma_state_emit(s3, store);
                    }
                },
            }
        },
        _ => {},
    }
}

/// `lowered_assignment` leaves a well-formed state well formed.
pub proof fn lemma_assignment_wf(s: State, statement: SpecStatement)
    ensures
        wf_plain(s, lowered_assignment(s, statement)),
    decreases statement, 0int,
{
    unfold::lemma_lowered_assignment(s, statement);
    match statement {
        SpecStatement::Assign { ident, value, span } => {
            match s.function.lookup(ident) {
                None => {},
                Some(slot) => {
                    lemma_expression_wf(s, value, span);
                    match lowered_expression(s, value, span) {
                        Err(_) => {},
                        Ok((s1, v)) => {
                            let store = Instruction::Store { slot: slot.index, value: v.value };
                            frame::lemma_then_emit(s, s1, store);
                            if state_wf(s) && state_bounded(s1.emit(store)) {
                                assert(state_bounded(s1));
                                lemma_lookup_wf(s.function.scopes, s.function.slots.len(), ident);
                                lemma_state_emit(s1, store);
                            }
                        },
                    }
                },
            }
        },
        _ => {},
    }
}

/// The blocks after a return, from a well-formed state.
pub proof fn lemma_returned_wf(s: State, value: Option<usize>)
    requires
        state_wf(s),
        state_bounded(returned(s, value)),
        value matches Some(v) ==> v < s.function.code.len(),
    ensures
        state_wf(returned(s, value)),
{
    lemma_state_add_block(s);
    lemma_state_terminate(s.add_block(), Terminator::Return { value }, s.function.next_block());
}

/// `lowered_return` leaves a well-formed state well formed.
pub proof fn lemma_return_wf(s: State, statement: SpecStatement)
    ensures
        wf_plain(s, lowered_return(s, statement)),
    decreases statement, 0int,
{
    unfold::lemma_lowered_return(s, statement);
    frame::lemma_return_frame(s, statement);
    match statement {
        SpecStatement::Return { value: Some(e), span } => {
            lemma_expression_wf(s, e, span);
            match lowered_expression(s, e, span) {
                Err(_) => {},
                Ok((s1, v)) => {
                    frame::lemma_returned_frame(s1, s1, None);
                    frame::lemma_returned_frame(s1, s1, Some(v.value));
                    if state_wf(s) {
                        if state_bounded(returned(s1, None)) {
                            lemma_bounded_before(s1, returned(s1, None));
                            lemma_returned_wf(s1, None);
                        }
                        if state_bounded(returned(s1, Some(v.value))) {
                            lemma_bounded_before(s1, returned(s1, Some(v.value)));
                            lemma_returned_wf(s1, Some(v.value));
                        }
                    }
                },
            }
        },
        SpecStatement::Return { value: None, span } => {
            if state_wf(s) && state_bounded(returned(s, None)) {
                lemma_returned_wf(s, None);
            }
        },
        _ => {},
    }
}

/// Whether a step from `s` that lowered a condition kept the frame and, from
/// a well-formed state, ended in a well-formed state with a value that an
/// instruction computed.
pub open spec fn wf_condition(s: State, r: Step<usize>) -> bool {
    r matches Ok((after, c)) ==> frame(s, after) && (state_wf(s) && state_bounded(after)
        ==> state_wf(after) && c < after.function.code.len())
}

/// `lowered_condition` leaves a well-formed state well formed.
pub proof fn lemma_condition_wf(s: State, e: SpecExpression, span: Span)
    ensures
        wf_condition(s, lowered_condition(s, e, span)),
    decreases e, 3int,
{
    unfold::lemma_lowered_condition(s, e, span);
    lemma_expression_wf(s, e, span);
}

/// `lowered_if` leaves a well-formed state well formed.
pub proof fn lemma_if_wf(s: State, statement: SpecStatement)
    ensures
        wf_plain(s, lowered_if(s, statement)),
    decreases statement, 0int,
{
    unfold::lemma_lowered_if(s, statement);
    match statement {
        SpecStatement::If { condition, then_branch, else_branch, span } => {
            lemma_condition_wf(s, condition, span);
            match lowered_condition(s, condition, span) {
                Err(_) => {},
                Ok((s1, c)) => {
                    let then_block = s1.function.next_block();
                    let other = (then_block + 1) as usize;
                    let branch = Terminator::Branch {
                        condition: c,
                        then_target: then_block,
                        else_target: other,
                    };
                    frame::lemma_then_add_block(s, s1);
                    frame::lemma_then_add_block(s, s1.add_block());
                    match else_branch {
                        None => {
                            let s2 = s1.add_block().add_block();
                            frame::lemma_then_terminate(s, s2, branch, then_block);
                            let s3 = s2.terminate(branch, then_block);
                            lemma_statement_wf(s3, *then_branch);
                            match lowered_statement(s3, *then_branch) {
                                Err(_) => {},
                                Ok((s4, _)) => {
                                    frame::lemma_frame_chain(s, s3, s4);
                                    let jump = Terminator::Jump { target: other };
                                    frame::lemma_then_terminate(s, s4, jump, other);
                                    if state_wf(s) && state_bounded(s4.terminate(jump, other)) {
                                        assert(state_bounded(s4));
                                        lemma_bounded_before(s3, s4);
                                        assert(state_bounded(s1));
                                        lemma_state_add_block(s1);
                                        lemma_state_add_block(s1.add_block());
                                        lemma_state_terminate(s2, branch, then_block);
                                        lemma_state_terminate(s4, jump, other);
                                    }
                                },
                            }
                        },
                        Some(else_statement) => {
                            let continuation = (then_block + 2) as usize;
                            frame::lemma_then_add_block(s, s1.add_block().add_block());
                            let s2 = s1.add_block().add_block().add_block();
                            frame::lemma_then_terminate(s, s2, branch, then_block);
                            let s3 = s2.terminate(branch, then_block);
                            lemma_statement_wf(s3, *then_branch);
                            match lowered_statement(s3, *then_branch) {
                                Err(_) => {},
                                Ok((s4, _)) => {
                                    frame::lemma_frame_chain(s, s3, s4);
                                    let jump = Terminator::Jump { target: continuation };
                                    frame::lemma_then_terminate(s, s4, jump, other);
                                    let s5 = s4.terminate(jump, other);
                                    lemma_statement_wf(s5, *else_statement);
                                    match lowered_statement(s5, *else_statement) {
                                        Err(_) => {},
                                        Ok((s6, _)) => {
                                            frame::lemma_frame_chain(s, s5, s6);
                                            frame::lemma_then_terminate(s, s6, jump, continuation);
                                            if state_wf(s) && state_bounded(
                                                s6.terminate(jump, continuation),
                                            ) {
                                                assert(state_bounded(s6));
                                                lemma_bounded_before(s5, s6);
                                                assert(state_bounded(s4));
                                                lemma_bounded_before(s3, s4);
                                                assert(state_bounded(s1));
                                                lemma_state_add_block(s1);
                                                lemma_state_add_block(s1.add_block());
                                                lemma_state_add_block(s1.add_block().add_block());
                                                lemma_state_terminate(s2, branch, then_block);
                                                lemma_state_terminate(s4, jump, other);
                                                lemma_state_terminate(s6, jump, continuation);
                                            }
                                        },
                                    }
                                },
                            }
                        },
                    }
                },
            }
        },
        _ => {},
    }
}

/// The blocks of a loop and the jump into its header, from a well-formed
/// state.
pub proof fn lemma_loop_entry_wf(s: State)
    requires
        state_wf(s),
        state_bounded(loop_entry(s)),
    ensures
        state_wf(loop_entry(s)),
{
    lemma_state_add_block(s);
    lemma_state_add_block(s.add_block());
    lemma_state_add_block(s.add_block().add_block());
    lemma_state_terminate(
        s.add_block().add_block().add_block(),
        Terminator::Jump { target: s.function.next_block() },
        s.function.next_block(),
    );
}

/// The branch at the end of the header of a loop, from a well-formed state.
pub proof fn lemma_loop_branch_wf(s: State, header: usize, c: usize)
    requires
        state_wf(s),
        state_bounded(s),
        header + 3 <= s.function.blocks.len(),
        c < s.function.code.len(),
    ensures
        state_wf(loop_branch(s, header, c)),
{
    lemma_state_terminate(
        s,
        Terminator::Branch {
            condition: c,
            then_target: (header + 1) as usize,
            else_target: (header + 2) as usize,
        },
        (header + 1) as usize,
    );
}

/// The jump back at the end of the body of a loop, from a well-formed
/// state.
pub proof fn lemma_loop_back_wf(s: State, header: usize)
    requires
        state_wf(s),
        state_bounded(s),
        header + 3 <= s.function.blocks.len(),
    ensures
        state_wf(loop_back(s, header)),
{
    lemma_state_terminate(s, Terminator::Jump { target: header }, (header + 2) as usize);
}

/// `lowered_while` leaves a well-formed state well formed.
pub proof fn lemma_while_wf(s: State, statement: SpecStatement)
    ensures
        wf_plain(s, lowered_while(s, statement)),
    decreases statement, 0int,
{
    unfold::lemma_lowered_while(s, statement);
    frame::lemma_while_frame(s, statement);
    match statement {
        SpecStatement::While { condition, body, span } => {
            let header = s.function.next_block();
            frame::lemma_loop_entry_frame(s, s);
            lemma_condition_wf(loop_entry(s), condition, span);
            match lowered_condition(loop_entry(s), condition, span) {
                Err(_) => {},
                Ok((s1, c)) => {
                    let s2 = loop_branch(s1, header, c);
                    lemma_block_wf(s2, body);
                    match lowered_block(s2, body) {
                        Err(_) => {},
                        Ok((s3, _)) => {
                            if state_wf(s) && state_bounded(loop_back(s3, header)) {
                                assert(state_bounded(s3));
                                lemma_bounded_before(s2, s3);
                                assert(state_bounded(s1));
                                lemma_bounded_before(loop_entry(s), s1);
                                lemma_loop_entry_wf(s);
                                lemma_loop_branch_wf(s1, header, c);
                                lemma_loop_back_wf(s3, header);
                            }
                        },
                    }
                },
            }
        },
        _ => {},
    }
}

/// `lowered_do_until` leaves a well-formed state well formed.
pub proof fn lemma_do_until_wf(s: State, statement: SpecStatement)
    ensures
        wf_plain(s, lowered_do_until(s, statement)),
    decreases statement, 0int,
{
    unfold::lemma_lowered_do_until(s, statement);
    match statement {
        SpecStatement::DoUntil { condition, body, span } => {
            let body_block = s.function.next_block();
            let exit = (body_block + 1) as usize;
            let jump = Terminator::Jump { target: body_block };
            frame::lemma_then_add_block(s, s);
            frame::lemma_then_add_block(s, s.add_block());
            frame::lemma_then_terminate(s, s.add_block().add_block(), jump, body_block);
            let s0 = s.add_block().add_block().terminate(jump, body_block);
            lemma_statement_wf(s0, *body);
            match lowered_statement(s0, *body) {
                Err(_) => {},
                Ok((s1, _)) => {
                    frame::lemma_frame_chain(s, s0, s1);
                    lemma_condition_wf(s1, condition, span);
                    match lowered_condition(s1, condition, span) {
                        Err(_) => {},
                        Ok((s2, c)) => {
                            frame::lemma_frame_chain(s, s1, s2);
                            let branch = Terminator::Branch {
                                condition: c,
                                then_target: exit,
                                else_target: body_block,
                            };
                            frame::lemma_then_terminate(s, s2, branch, exit);
                            if state_wf(s) && state_bounded(s2.terminate(branch, exit)) {
                                assert(state_bounded(s2));
                                lemma_bounded_before(s1, s2);
                                lemma_bounded_before(s0, s1);
                                lemma_state_add_block(s);
                                lemma_state_add_block(s.add_block());
                                lemma_state_terminate(s.add_block().add_block(), jump, body_block);
                                lemma_state_terminate(s2, branch, exit);
                            }
                        },
                    }
                },
            }
        },
        _ => {},
    }
}

/// `lowered_for` leaves a well-formed state well formed.
pub proof fn lemma_for_wf(s: State, statement: SpecStatement)
    ensures
        wf_plain(s, lowered_for(s, statement)),
    decreases statement, 0int,
{
    unfold::lemma_lowered_for(s, statement);
    frame::lemma_for_frame(s, statement);
    match statement {
        SpecStatement::For { init, condition, increment, body, span } => {
            let s0 = s.enter_scope();
            lemma_statement_wf(s0, *init);
            match lowered_statement(s0, *init) {
                Err(_) => {},
                Ok((s1, _)) => {
                    let header = s1.function.next_block();
                    frame::lemma_loop_entry_frame(s1, s1);
                    lemma_condition_wf(loop_entry(s1), condition, span);
                    match lowered_condition(loop_entry(s1), condition, span) {
                        Err(_) => {},
                        Ok((s2, c)) => {
                            let s3 = loop_branch(s2, header, c);
                            let s4 = s3.enter_scope();
                            lemma_block_wf(s4, body);
                            match lowered_block(s4, body) {
                                Err(_) => {},
                                Ok((s5, _)) => {
                                    lemma_statement_wf(s5, *increment);
                                    match lowered_statement(s5, *increment) {
                                        Err(_) => {},
                                        Ok((s6, _)) => {
                                            let s7 = s6.exit_scope();
                                            let s8 = loop_back(s7, header);
                                            let after = s8.exit_scope();
                                            if state_wf(s) && state_bounded(after) {
                                                assert(state_bounded(s6));
                                                lemma_bounded_before(s5, s6);
                                                lemma_bounded_before(s4, s5);
                                                assert(state_bounded(s2));
                                                lemma_bounded_before(loop_entry(s1), s2);
                                                assert(state_bounded(s1));
                                                lemma_bounded_before(s0, s1);
                                                lemma_wf_scopes(s.function, s.unit.signatures.len());
                                                lemma_loop_entry_wf(s1);
                                                lemma_loop_branch_wf(s2, header, c);
                                                lemma_wf_scopes(
                                                    s3.function,
                                                    s3.unit.signatures.len(),
                                                );
                                                lemma_wf_scopes(
                                                    s6.function,
                                                    s6.unit.signatures.len(),
                                                );
                                                lemma_loop_back_wf(s7, header);
                                                lemma_wf_scopes(
                                                    s8.function,
                                                    s8.unit.signatures.len(),
                                                );
                                            }
                                        },
                                    }
                                },
                            }
                        },
                    }
                },
            }
        },
        _ => {},
    }
}

/// Whether the indices of a module fit a machine word.
pub open spec fn module_bounded(module: SpecModule) -> bool {
    &&& module.routines.len() <= usize::MAX
    &&& forall|r: int|
        0 <= r < module.routines.len() ==> routine_bounded(#[trigger] module.routines[r])
}

/// The functions from index `i` on lower to one routine each, and to
/// well-formed routines in a well-formed unit.
pub proof fn lemma_functions_wf(
    unit: Unit,
    functions: Seq<SpecFunction>,
    i: int,
    done: Seq<SpecRoutine>,
)
    requires
        0 <= i <= functions.len(),
    ensures
        lowered_functions(unit, functions, i, done) matches Ok((after, routines)) ==> {
            &&& routines.len() == done.len() + functions.len() - i
            &&& forall|r: int| 0 <= r < done.len() ==> #[trigger] routines[r] == done[r]
            &&& unit.signatures.len() <= after.signatures.len()
            &&& after.names == unit.names
            &&& (unit_wf(unit) && after.signatures.len() <= usize::MAX && (forall|r: int|
                0 <= r < done.len() ==> (#[trigger] done[r]).wf(unit.signatures.len())) && (
            forall|r: int| 0 <= r < routines.len() ==> routine_bounded(#[trigger] routines[r]))
                && (forall|r: int|
                0 <= r < after.lifted.len() ==> routine_bounded(#[trigger] after.lifted[r]))
                ==> unit_wf(after) && (forall|r: int|
                0 <= r < routines.len() ==> (#[trigger] routines[r]).wf(after.signatures.len())))
        },
    decreases functions.len() - i,
{
    reveal(lowered_functions);
    if i < functions.len() {
        let f = functions[i];
        lemma_routine_wf(unit, f.ident, f.params, f.return_type, f.body, f.span);
        frame::lemma_routine_frame(unit, f.ident, f.params, f.return_type, f.body, f.span);
        match lowered_routine(unit, f.ident, f.params, f.return_type, f.body, f.span) {
            Err(_) => {},
            Ok((unit1, routine)) => {
                let done1 = done.push(routine);
                lemma_functions_wf(unit1, functions, i + 1, done1);
                match lowered_functions(unit1, functions, i + 1, done1) {
                    Err(_) => {},
                    Ok((after, routines)) => {
                        frame::lemma_functions_frame(unit1, functions, i + 1, done1);
                        assert forall|r: int| 0 <= r < done.len() implies #[trigger] routines[r]
                            == done[r] by {
                            assert(routines[r] == done1[r]);
                        }
                        assert(routines[done.len() as int] == done1[done.len() as int]);
                        if unit_wf(unit) && after.signatures.len() <= usize::MAX && (forall|r: int|
                            0 <= r < done.len() ==> (#[trigger] done[r]).wf(
                                unit.signatures.len(),
                            )) && (forall|r: int|
                            0 <= r < routines.len() ==> routine_bounded(#[trigger] routines[r]))
                            && (forall|r: int|
                            0 <= r < after.lifted.len() ==> routine_bounded(
                                #[trigger] after.lifted[r],
                            )) {
                            assert(routines[done.len() as int] == routine);
                            assert(routine_bounded(routine));
                            assert forall|r: int| 0 <= r < unit1.lifted.len() implies routine_bounded(
                                #[trigger] unit1.lifted[r],
                            ) by {
                                assert(after.lifted[r] == unit1.lifted[r]);
                            }
                            assert forall|r: int| 0 <= r < done1.len() implies (
                            #[trigger] done1[r]).wf(unit1.signatures.len()) by {
                                if r < done.len() {
                                    lemma_routine_more(
                                        done[r],
                                        unit.signatures.len(),
                                        unit1.signatures.len(),
                                    );
                                }
                            }
                        }
                    },
                }
            },
        }
    }
}

/// The module that a program lowers to is well formed.
pub proof fn lemma_program_wf(program: SpecProgram)
    ensures
        lowered_program(program) matches Ok(module) ==> module_bounded(module) ==> module.wf(),
{
    let unit = declared(program);
    lemma_functions_wf(unit, program.functions, 0, Seq::empty());
    match lowered_program(program) {
        Err(_) => {},
        Ok(module) => {
            if module_bounded(module) {
                let (after, routines) = lowered_functions(
                    unit,
                    program.functions,
                    0,
                    Seq::empty(),
                )->Ok_0;
                assert(module.routines == routines + after.lifted);
                assert forall|r: int| 0 <= r < routines.len() implies routine_bounded(
                    #[trigger] routines[r],
                ) by {
                    assert(module.routines[r] == routines[r]);
                }
                assert forall|r: int| 0 <= r < after.lifted.len() implies routine_bounded(
                    #[trigger] after.lifted[r],
                ) by {
                    assert(module.routines[routines.len() + r] == after.lifted[r]);
                }
                assert(unit_wf(unit));
                frame::lemma_functions_frame(unit, program.functions, 0, Seq::empty());
                assert(after.signatures.len() == module.routines.len());
                assert forall|r: int| 0 <= r < module.routines.len() implies (
                #[trigger] module.routines[r]).wf(module.routines.len()) by {
                    if r < routines.len() {
                        assert(module.routines[r] == routines[r]);
                    } else {
                        assert(module.routines[r] == after.lifted[r - routines.len()]);
                    }
                }
            }
        },
    }
}

} // verus!
