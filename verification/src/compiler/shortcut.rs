//! Short circuit, end to end: where the left operand of `or` is `true`, or
//! the left operand of `and` is `false`, the right operand is never run,
//! whatever it is.

use super::arithmetic::{lemma_run_is_steps, steps};
use super::builder::SpecBuilder;
use super::frame::{lemma_expression_frame, lemma_logical_split_frame};
use super::ir::{BasicBlock, Instruction, SpecModule, SpecRoutine, Terminator, ValueType};
use super::machine::{
    after_instruction, after_return, after_terminator, called, effect_of, entered, exit_of, step,
    Progress, SpecFrame, Value,
};
use super::rules::{
    declared, entry, fall_through, find_function, first_duplicate, function_names, logical_split,
    lowered_expression, lowered_functions, lowered_program, lowered_routine, returned, signature_of,
    State, Unit,
};
use super::unfold;
use super::wellformed::module_bounded;
use crate::ast::{
    BinaryOperator, SpecBlock, SpecExpression, SpecFunction, SpecProgram, SpecStatement, Type,
};
use crate::error::{Span, SpecCompileError};
use vstd::prelude::*;

verus! {

/// The expression `true or right`, or `false and right`: a logical operator
/// whose left operand decides the result.
pub open spec fn decided(is_or: bool, right: SpecExpression) -> SpecExpression {
    SpecExpression::Binary {
        left: Box::new(SpecExpression::BooleanLiteral { value: is_or }),
        operator: if is_or {
            BinaryOperator::Or
        } else {
            BinaryOperator::And
        },
        right: Box::new(right),
    }
}

/// The program of one function, without parameters, that returns the
/// boolean `e`.
pub open spec fn returning_bool(
    name: Seq<char>,
    e: SpecExpression,
    header: Span,
    span: Span,
) -> SpecProgram {
    SpecProgram {
        functions: seq![
            SpecFunction {
                ident: name,
                params: Seq::empty(),
                return_type: Type::Bool,
                body: SpecBlock {
                    statements: seq![SpecStatement::Return { value: Some(e), span }],
                },
                span: header,
            },
        ],
    }
}

/// One step of a frame that stands at an instruction: the instruction's
/// effect on the frame.
proof fn lemma_instruction_step(m: SpecModule, fr: SpecFrame)
    requires
        fr.function < m.routines.len(),
        fr.block < m.routines[fr.function as int].blocks.len(),
        fr.next < m.routines[fr.function as int].blocks[fr.block as int].end,
        fr.next < m.routines[fr.function as int].code.len(),
    ensures
        step(m, seq![fr]) == after_instruction(
            m,
            Seq::empty(),
            fr,
            m.routines[fr.function as int].code[fr.next as int],
        ),
{
    reveal(step);
    assert(seq![fr].drop_last() =~= Seq::<SpecFrame>::empty());
}

/// One step of a frame that stands at the end of its block: the effect of
/// the block's terminator.
proof fn lemma_terminator_step(m: SpecModule, fr: SpecFrame)
    requires
        fr.function < m.routines.len(),
        fr.block < m.routines[fr.function as int].blocks.len(),
        fr.next >= m.routines[fr.function as int].blocks[fr.block as int].end,
    ensures
        step(m, seq![fr]) == after_terminator(
            m.routines[fr.function as int],
            Seq::empty(),
            fr,
            m.routines[fr.function as int].blocks[fr.block as int].terminator,
        ),
{
    reveal(step);
    assert(seq![fr].drop_last() =~= Seq::<SpecFrame>::empty());
}

/// Short circuit: a function that returns `true or right`, or
/// `false and right`, returns the value of the left operand, whatever
/// `right` is and whatever running it would do.  The right operand is
/// compiled, and checked, but the call never reaches its code.
pub proof fn lemma_short_circuit_function(
    name: Seq<char>,
    is_or: bool,
    right: SpecExpression,
    header: Span,
    span: Span,
    fuel: nat,
)
    requires
        lowered_program(returning_bool(name, decided(is_or, right), header, span)) matches Ok(
            module,
        ) && module_bounded(module),
        fuel >= 5,
    ensures
        lowered_program(returning_bool(name, decided(is_or, right), header, span)) matches Ok(
            module,
        ) && called(module, 0, Seq::empty(), fuel) == Ok::<Value, super::machine::Trap>(
            Value::Bool(is_or),
        ),
{
    let e = decided(is_or, right);
    let program = returning_bool(name, e, header, span);
    let module = lowered_program(program)->Ok_0;
    let function = program.functions[0];
    let body = function.body;
    let statement = body.statements[0];
    let names = function_names(program.functions);
    assert(names.len() == 1 && names[0] == name);
    assert(find_function(names, name, 0) == Some(0usize));
    assert(first_duplicate(names, 1) is None);
    assert(first_duplicate(names, 0) is None);
    let unit = declared(program);
    reveal(lowered_functions);
    unfold::lemma_lowered_routine(unit, name, Seq::empty(), Type::Bool, body, header);
    let s = State { unit, function: entry(Seq::empty(), Type::Bool) };
    assert(s.function == SpecBuilder::empty(Type::Bool).enter_scope());
    unfold::lemma_lowered_block(s, body);
    let s0 = s.enter_scope();
    unfold::lemma_lowered_statements(s0, body.statements, 0);
    unfold::lemma_lowered_statement(s0, statement);
    unfold::lemma_lowered_return(s0, statement);
    unfold::lemma_lowered_expression(s0, e, span);
    unfold::lemma_lowered_logical(s0, e, span);
    let left = SpecExpression::BooleanLiteral { value: is_or };
    unfold::lemma_lowered_expression(s0, left, span);
    let (s1, l) = lowered_expression(s0, left, span)->Ok_0;
    assert(l.value == 0 && l.value_type == ValueType::Data(Type::Bool));
    let split = logical_split(s1, l, is_or);
    lemma_logical_split_frame(s1, s1, l, is_or);
    let (s2, r) = lowered_expression(split, right, span)->Ok_0;
    lemma_expression_frame(split, right, span);
    let store = Instruction::Store { slot: 0, value: r.value };
    let s3 = s2.emit(store);
    let s4 = s3.terminate(Terminator::Jump { target: 2 }, 2);
    let s5 = s4.emit(Instruction::Load { slot: 0 });
    let v = s4.function.next_value();
    let s6 = returned(s5, Some(v));
    unfold::lemma_lowered_statements(s6, body.statements, 1);
    let s7 = s6.exit_scope();
    let closed = s7.function.terminate(fall_through(Type::Bool), s7.function.current);
    let routine = closed.routine(name, signature_of(Seq::empty(), Type::Bool));
    assert(lowered_routine(unit, name, Seq::empty(), Type::Bool, body, header) == Ok::<
        (Unit, SpecRoutine),
        SpecCompileError,
    >((s7.unit, routine)));
    assert(lowered_functions(s7.unit, program.functions, 1, seq![routine]) == Ok::<
        (Unit, Seq<SpecRoutine>),
        SpecCompileError,
    >((s7.unit, seq![routine])));
    assert(Seq::<SpecRoutine>::empty().push(routine) =~= seq![routine]);
    assert(module.routines =~= seq![routine] + s7.unit.lifted);
    assert(module.routines[0] == routine);
    assert(super::wellformed::routine_bounded(module.routines[0]));

    // The routine: the left operand and its branch, then whatever the right
    // operand is, then the block where both paths meet.
    let end = s2.function.code.len() as int;
    assert(s2.function.bounded());
    assert(routine.code.len() == end + 2);
    assert(routine.code[0] == Instruction::BoolConst { value: is_or }) by {
        assert(split.function.code[0] == Instruction::BoolConst { value: is_or });
        assert(s2.function.code[0] == split.function.code[0]);
    }
    assert(routine.code[1] == Instruction::Store { slot: 0, value: 0 }) by {
        assert(split.function.code[1] == Instruction::Store { slot: 0, value: 0 });
        assert(s2.function.code[1] == split.function.code[1]);
    }
    assert(routine.code[end + 1] == Instruction::Load { slot: 0 });
    let first = BasicBlock {
        start: 0,
        end: 2,
        terminator: if is_or {
            Terminator::Branch { condition: 0, then_target: 2, else_target: 1 }
        } else {
            Terminator::Branch { condition: 0, then_target: 1, else_target: 2 }
        },
    };
    assert(split.function.blocks[0] == first);
    assert(s2.function.blocks[0] == first);
    assert(s2.function.current != 0);
    assert(routine.blocks[0] == first);
    let meet = BasicBlock {
        start: (end + 1) as usize,
        end: (end + 2) as usize,
        terminator: Terminator::Return { value: Some((end + 1) as usize) },
    };
    assert(routine.blocks[2] == meet);
    assert(routine.slots.len() >= 1);

    // The run: the left operand, the branch to where the paths meet, the
    // kept value, the return.
    reveal(entered);
    let fr0 = entered(routine, 0, Seq::empty())->0;
    assert(routine.signature.params.len() == 0);
    assert(entered(routine, 0, Seq::empty()) is Some);
    reveal(after_instruction);
    reveal(after_terminator);
    reveal(effect_of);
    reveal(exit_of);
    reveal(after_return);
    lemma_instruction_step(module, fr0);
    let fr1 = SpecFrame {
        values: fr0.values.update(0, Some(Value::Bool(is_or))),
        next: 1,
        ..fr0
    };
    assert(step(module, seq![fr0]) == Progress::Running(seq![fr1])) by {
        assert(Seq::<SpecFrame>::empty().push(fr1) =~= seq![fr1]);
    }
    lemma_instruction_step(module, fr1);
    let fr2 = SpecFrame { slots: fr1.slots.update(0, Some(Value::Bool(is_or))), next: 2, ..fr1 };
    assert(step(module, seq![fr1]) == Progress::Running(seq![fr2])) by {
        assert(Seq::<SpecFrame>::empty().push(fr2) =~= seq![fr2]);
    }
    lemma_terminator_step(module, fr2);
    let fr3 = SpecFrame { block: 2, next: (end + 1) as usize, ..fr2 };
    assert(step(module, seq![fr2]) == Progress::Running(seq![fr3])) by {
        assert(Seq::<SpecFrame>::empty().push(fr3) =~= seq![fr3]);
    }
    lemma_instruction_step(module, fr3);
    let fr4 = SpecFrame {
        values: fr3.values.update(end + 1, Some(Value::Bool(is_or))),
        next: (end + 2) as usize,
        ..fr3
    };
    assert(step(module, seq![fr3]) == Progress::Running(seq![fr4])) by {
        assert(Seq::<SpecFrame>::empty().push(fr4) =~= seq![fr4]);
    }
    lemma_terminator_step(module, fr4);
    assert(step(module, seq![fr4]) == Progress::Finished(Value::Bool(is_or)));
    assert(steps(module, seq![fr4], 1) == Progress::Finished(Value::Bool(is_or)));
    assert(steps(module, seq![fr3], 2) == Progress::Finished(Value::Bool(is_or)));
    assert(steps(module, seq![fr2], 3) == Progress::Finished(Value::Bool(is_or)));
    assert(steps(module, seq![fr1], 4) == Progress::Finished(Value::Bool(is_or)));
    assert(steps(module, seq![fr0], 5) == Progress::Finished(Value::Bool(is_or)));
    lemma_run_is_steps(module, seq![fr0], 5, (fuel - 5) as nat);
}

} // verus!
