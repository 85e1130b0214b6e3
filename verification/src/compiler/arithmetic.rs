//! Constant arithmetic is compiled right: the code that an expression of
//! integer literals, `+ - * /`, unary minus and parentheses lowers to
//! computes, on the machine, the value of the expression.

use super::builder::{SpecBuilder, Typed};
use super::ir::{Instruction, SpecModule, UnaryOperation, ValueType};
use super::machine::{
    after_instruction, after_return, after_terminator, called, effect_of, entered, exit_of, run,
    step, Progress, SpecFrame, Trap, Value,
};
use super::rules::{finish_binary, finish_unary, lowered_expression, State};
use super::unfold;
use crate::ast::{
    BinaryOperator, SpecBlock, SpecExpression, SpecFunction, SpecProgram, SpecStatement, Type,
    UnaryOperator,
};
use crate::error::Span;
use vstd::prelude::*;

verus! {

/// The result of an arithmetic operator on two integers: arithmetic wraps,
/// and division traps on a zero divisor and on overflow.
pub open spec fn arithmetic(operator: BinaryOperator, a: i64, b: i64) -> Result<i64, Trap> {
    match operator {
        BinaryOperator::Plus => Ok(a.wrapping_add(b)),
        BinaryOperator::Minus => Ok(a.wrapping_sub(b)),
        BinaryOperator::Star => Ok(a.wrapping_mul(b)),
        _ => match a.checked_div(b) {
            Some(q) => Ok(q),
            None => Err(Trap::Division),
        },
    }
}

/// Whether an operator is one of `+ - * /`.
pub open spec fn is_arithmetic_operator(operator: BinaryOperator) -> bool {
    operator is Plus || operator is Minus || operator is Star || operator is Slash
}

/// The value of an expression of integer literals, `+ - * /`, unary minus
/// and parentheses, or the trap that its evaluation ends in; operands are
/// evaluated left to right.  `None` for every other expression.
pub open spec fn constant(e: SpecExpression) -> Option<Result<i64, Trap>>
    decreases e,
{
    match e {
        SpecExpression::IntegerLiteral { value } => Some(Ok(value)),
        SpecExpression::Grouping { expression } => constant(*expression),
        SpecExpression::Unary { operator: UnaryOperator::Minus, right } => match constant(*right) {
            Some(Ok(n)) => Some(Ok(0i64.wrapping_sub(n))),
            other => other,
        },
        SpecExpression::Binary { left, operator, right } => if is_arithmetic_operator(operator) {
            match (constant(*left), constant(*right)) {
                (Some(Ok(a)), Some(Ok(b))) => Some(arithmetic(operator, a, b)),
                (Some(Ok(_)), Some(Err(trap))) => Some(Err(trap)),
                (Some(Err(trap)), Some(_)) => Some(Err(trap)),
                _ => None,
            }
        } else {
            None
        },
        _ => None,
    }
}

/// How many instructions an expression of constant arithmetic lowers to:
/// one for every literal and every operator.
pub open spec fn cost(e: SpecExpression) -> nat
    decreases e,
{
    match e {
        SpecExpression::Grouping { expression } => cost(*expression),
        SpecExpression::Unary { right, .. } => cost(*right) + 1,
        SpecExpression::Binary { left, right, .. } => cost(*left) + cost(*right) + 1,
        _ => 1,
    }
}

/// What `k` steps of the machine leave behind: the frames after them, or the
/// end of the run if it comes earlier.
pub open spec fn steps(m: SpecModule, stack: Seq<SpecFrame>, k: nat) -> Progress
    decreases k,
{
    if k == 0 {
        Progress::Running(stack)
    } else {
        match step(m, stack) {
            Progress::Running(next) => steps(m, next, (k - 1) as nat),
            other => other,
        }
    }
}

/// Steps add up.
pub proof fn lemma_steps_add(m: SpecModule, stack: Seq<SpecFrame>, j: nat, k: nat)
    ensures
        steps(m, stack, j + k) == match steps(m, stack, j) {
            Progress::Running(mid) => steps(m, mid, k),
            other => other,
        },
    decreases j,
{
    if j > 0 {
        match step(m, stack) {
            Progress::Running(next) => {
                lemma_steps_add(m, next, (j - 1) as nat, k);
            },
            _ => {},
        }
    }
}

/// A run is the steps it is given, one after another.
pub proof fn lemma_run_is_steps(m: SpecModule, stack: Seq<SpecFrame>, k: nat, fuel: nat)
    ensures
        super::machine::run(m, stack, k + fuel) == match steps(m, stack, k) {
            Progress::Running(mid) => super::machine::run(m, mid, fuel),
            Progress::Finished(v) => Ok(v),
            Progress::Stopped(trap) => Err(trap),
        },
    decreases k,
{
    if k > 0 {
        match step(m, stack) {
            Progress::Running(next) => {
                lemma_run_is_steps(m, next, (k - 1) as nat, fuel);
            },
            _ => {},
        }
    }
}

/// Whether the frame `fr` runs code that begins with `code`, in a block that
/// holds the instructions up to index `upto`.
pub open spec fn hosts(m: SpecModule, fr: SpecFrame, code: Seq<Instruction>, upto: int) -> bool {
    &&& fr.function < m.routines.len()
    &&& fr.block < m.routines[fr.function as int].blocks.len()
    &&& upto <= m.routines[fr.function as int].blocks[fr.block as int].end
    &&& code.len() <= m.routines[fr.function as int].code.len()
    &&& forall|i: int|
        0 <= i < code.len() ==> #[trigger] m.routines[fr.function as int].code[i] == code[i]
    &&& fr.values.len() == m.routines[fr.function as int].code.len()
}

/// Whether `out` is the stack `rest` under the frame `fr`, after `fr` ran
/// the code from index `from` up to index `to`: it stands at `to`, and kept
/// everything but the values of the instructions it ran.
pub open spec fn ran(
    rest: Seq<SpecFrame>,
    fr: SpecFrame,
    out: Seq<SpecFrame>,
    from: int,
    to: int,
) -> bool {
    &&& out.len() == rest.len() + 1
    &&& out.drop_last() == rest
    &&& out.last().function == fr.function
    &&& out.last().block == fr.block
    &&& out.last().next == to
    &&& out.last().slots == fr.slots
    &&& out.last().arguments == fr.arguments
    &&& out.last().values.len() == fr.values.len()
    &&& forall|i: int| 0 <= i < from ==> #[trigger] out.last().values[i] == fr.values[i]
}

/// One step of a frame that stands at an instruction which computes a
/// value or stops the run.
pub proof fn lemma_one_step(
    m: SpecModule,
    rest: Seq<SpecFrame>,
    fr: SpecFrame,
    code: Seq<Instruction>,
)
    requires
        hosts(m, fr, code, fr.next + 1),
        fr.next < code.len(),
        fr.next < usize::MAX,
    ensures
        match effect_of(fr, code[fr.next as int]) {
            super::machine::Effect::Define(v) => step(m, rest.push(fr)) == Progress::Running(
                rest.push(
                    SpecFrame {
                        values: fr.values.update(fr.next as int, Some(v)),
                        next: (fr.next + 1) as usize,
                        ..fr
                    },
                ),
            ),
            super::machine::Effect::Stop(trap) => step(m, rest.push(fr)) == Progress::Stopped(trap),
            _ => true,
        },
{
    reveal(step);
    reveal(after_instruction);
    let stack = rest.push(fr);
    assert(stack.last() == fr);
    assert(stack.drop_last() =~= rest);
    assert(m.routines[fr.function as int].code[fr.next as int] == code[fr.next as int]);
}

/// Whether `after` is the state `s` with the `count` instructions of an
/// integer expression appended, the last of which computes the value `v`.
pub open spec fn appended(s: State, after: State, v: Typed, count: nat) -> bool {
    &&& after.unit == s.unit
    &&& after.function == (SpecBuilder { code: after.function.code, ..s.function })
    &&& after.function.code.len() == s.function.code.len() + count
    &&& count > 0
    &&& forall|i: int|
        0 <= i < s.function.code.len() ==> #[trigger] after.function.code[i] == s.function.code[i]
    &&& v.value_type == ValueType::Data(Type::Int)
    &&& v.value == (after.function.code.len() - 1) as usize
}

/// An expression of constant arithmetic always lowers: to `cost(e)`
/// instructions, the last of which computes an integer.
pub proof fn lemma_constant_lowers(s: State, e: SpecExpression, span: Span)
    requires
        constant(e) is Some,
    ensures
        lowered_expression(s, e, span) matches Ok((after, v)) && appended(s, after, v, cost(e)),
    decreases e,
{
    unfold::lemma_lowered_expression(s, e, span);
    match e {
        SpecExpression::IntegerLiteral { value } => {},
        SpecExpression::Grouping { expression } => {
            lemma_constant_lowers(s, *expression, span);
        },
        SpecExpression::Unary { operator, right } => {
            unfold::lemma_lowered_unary(s, e, span);
            lemma_constant_lowers(s, *right, span);
            reveal(finish_unary);
        },
        SpecExpression::Binary { left, operator, right } => {
            unfold::lemma_lowered_binary(s, e, span);
            lemma_constant_lowers(s, *left, span);
            let (s1, l) = lowered_expression(s, *left, span)->Ok_0;
            lemma_constant_lowers(s1, *right, span);
            let (s2, r) = lowered_expression(s1, *right, span)->Ok_0;
            reveal(finish_binary);
            let after = finish_binary(s2, operator, l, r, span)->Ok_0.0;
            assert forall|i: int| 0 <= i < s.function.code.len() implies #[trigger] after.function.code[i]
                == s.function.code[i] by {
                assert(s1.function.code[i] == s.function.code[i]);
                assert(s2.function.code[i] == s1.function.code[i]);
            }
        },
        _ => {},
    }
}

/// The stack that a run left behind, with its topmost frame named.
proof fn lemma_top(rest: Seq<SpecFrame>, out: Seq<SpecFrame>)
    requires
        out.len() == rest.len() + 1,
        out.drop_last() == rest,
    ensures
        out == rest.push(out.last()),
{
    assert(out =~= rest.push(out.last()));
}

/// The code of an expression of constant arithmetic computes the value of
/// the expression: a frame that stands where the code begins stands, after
/// `cost(e)` steps, where the code ends, and holds the value; or the run
/// stops before, in the trap in which the evaluation of the expression
/// ends.
pub proof fn lemma_constant_runs(
    m: SpecModule,
    rest: Seq<SpecFrame>,
    fr: SpecFrame,
    s: State,
    e: SpecExpression,
    span: Span,
)
    requires
        constant(e) is Some,
        lowered_expression(s, e, span) matches Ok((after, _)) && hosts(
            m,
            fr,
            after.function.code,
            after.function.code.len() as int,
        ) && after.function.code.len() <= usize::MAX,
        fr.next == s.function.code.len(),
    ensures
        ({
            let (after, v) = lowered_expression(s, e, span)->Ok_0;
            match constant(e)->0 {
                Ok(n) => steps(m, rest.push(fr), cost(e)) matches Progress::Running(out) && ran(
                    rest,
                    fr,
                    out,
                    s.function.code.len() as int,
                    after.function.code.len() as int,
                ) && out.last().values[v.value as int] == Some(Value::Int(n)),
                Err(trap) => exists|j: nat|
                    j <= cost(e) && #[trigger] steps(m, rest.push(fr), j) == Progress::Stopped(trap),
            }
        }),
    decreases e,
{
    unfold::lemma_lowered_expression(s, e, span);
    lemma_constant_lowers(s, e, span);
    let (after, v) = lowered_expression(s, e, span)->Ok_0;
    let code = after.function.code;
    match e {
        SpecExpression::IntegerLiteral { value } => {
            reveal(effect_of);
            lemma_one_step(m, rest, fr, code);
            assert(code[fr.next as int] == Instruction::IntConst { value });
            let out = rest.push(
                SpecFrame {
                    values: fr.values.update(fr.next as int, Some(Value::Int(value))),
                    next: (fr.next + 1) as usize,
                    ..fr
                },
            );
            assert(steps(m, out, 0) == Progress::Running(out));
            assert(steps(m, rest.push(fr), 1) == Progress::Running(out));
            assert(out.drop_last() =~= rest);
        },
        SpecExpression::Grouping { expression } => {
            lemma_constant_runs(m, rest, fr, s, *expression, span);
        },
        SpecExpression::Unary { operator, right } => {
            unfold::lemma_lowered_unary(s, e, span);
            reveal(finish_unary);
            lemma_constant_lowers(s, *right, span);
            let (s1, r) = lowered_expression(s, *right, span)->Ok_0;
            assert(hosts(m, fr, s1.function.code, s1.function.code.len() as int)) by {
                assert forall|i: int| 0 <= i < s1.function.code.len() implies #[trigger] m.routines[fr.function as int].code[i]
                    == s1.function.code[i] by {
                    assert(code[i] == s1.function.code[i]);
                }
            }
            lemma_constant_runs(m, rest, fr, s, *right, span);
            match constant(*right)->0 {
                Err(trap) => {
                    let j = choose|j: nat|
                        j <= cost(*right) && #[trigger] steps(m, rest.push(fr), j)
                            == Progress::Stopped(trap);
                    assert(j <= cost(e));
                },
                Ok(n) => {
                    let out1 = steps(m, rest.push(fr), cost(*right))->Running_0;
                    let fr1 = out1.last();
                    lemma_top(rest, out1);
                    reveal(effect_of);
                    lemma_one_step(m, rest, fr1, code);
                    assert(code[fr1.next as int] == Instruction::Unary {
                        operation: UnaryOperation::Negate,
                        operand_type: Type::Int,
                        operand: r.value,
                    });
                    let out = rest.push(
                        SpecFrame {
                            values: fr1.values.update(
                                fr1.next as int,
                                Some(Value::Int(0i64.wrapping_sub(n))),
                            ),
                            next: (fr1.next + 1) as usize,
                            ..fr1
                        },
                    );
                    assert(steps(m, out, 0) == Progress::Running(out));
                    assert(steps(m, out1, 1) == Progress::Running(out));
                    lemma_steps_add(m, rest.push(fr), cost(*right), 1);
                    assert(out.drop_last() =~= rest);
                },
            }
        },
        SpecExpression::Binary { left, operator, right } => {
            unfold::lemma_lowered_binary(s, e, span);
            reveal(finish_binary);
            lemma_constant_lowers(s, *left, span);
            let (s1, l) = lowered_expression(s, *left, span)->Ok_0;
            lemma_constant_lowers(s1, *right, span);
            let (s2, r) = lowered_expression(s1, *right, span)->Ok_0;
            assert forall|i: int| 0 <= i < s2.function.code.len() implies #[trigger] m.routines[fr.function as int].code[i]
                == s2.function.code[i] by {
                assert(code[i] == s2.function.code[i]);
            }
            assert forall|i: int| 0 <= i < s1.function.code.len() implies #[trigger] m.routines[fr.function as int].code[i]
                == s1.function.code[i] by {
                assert(s2.function.code[i] == s1.function.code[i]);
                assert(code[i] == s2.function.code[i]);
            }
            lemma_constant_runs(m, rest, fr, s, *left, span);
            match constant(*left)->0 {
                Err(trap) => {
                    let j = choose|j: nat|
                        j <= cost(*left) && #[trigger] steps(m, rest.push(fr), j)
                            == Progress::Stopped(trap);
                    assert(j <= cost(e));
                },
                Ok(a) => {
                    let k1 = cost(*left);
                    let out1 = steps(m, rest.push(fr), k1)->Running_0;
                    let fr1 = out1.last();
                    lemma_top(rest, out1);
                    lemma_constant_runs(m, rest, fr1, s1, *right, span);
                    match constant(*right)->0 {
                        Err(trap) => {
                            let j = choose|j: nat|
                                j <= cost(*right) && #[trigger] steps(m, rest.push(fr1), j)
                                    == Progress::Stopped(trap);
                            lemma_steps_add(m, rest.push(fr), k1, j);
                            assert(steps(m, rest.push(fr), k1 + j) == Progress::Stopped(trap));
                            assert(k1 + j <= cost(e));
                        },
                        Ok(b) => {
                            let k2 = cost(*right);
                            let out2 = steps(m, rest.push(fr1), k2)->Running_0;
                            let fr2 = out2.last();
                            lemma_top(rest, out2);
                            lemma_steps_add(m, rest.push(fr), k1, k2);
                            reveal(effect_of);
                            lemma_one_step(m, rest, fr2, code);
                            let operation = super::rules::operation_of(operator)->0;
                            assert(code[fr2.next as int] == Instruction::Binary {
                                operation,
                                operand_type: Type::Int,
                                left: l.value,
                                right: r.value,
                            });
                            assert(fr2.values[l.value as int] == fr1.values[l.value as int]);
                            match arithmetic(operator, a, b) {
                                Ok(n) => {
                                    let out = rest.push(
                                        SpecFrame {
                                            values: fr2.values.update(
                                                fr2.next as int,
                                                Some(Value::Int(n)),
                                            ),
                                            next: (fr2.next + 1) as usize,
                                            ..fr2
                                        },
                                    );
                                    assert(steps(m, out, 0) == Progress::Running(out));
                                    assert(steps(m, out2, 1) == Progress::Running(out));
                                    lemma_steps_add(m, rest.push(fr), k1 + k2, 1);
                                    assert(out.drop_last() =~= rest);
                                },
                                Err(trap) => {
                                    assert(steps(m, out2, 1) == Progress::Stopped(trap));
                                    lemma_steps_add(m, rest.push(fr), k1 + k2, 1);
                                    assert(steps(m, rest.push(fr), k1 + k2 + 1)
                                        == Progress::Stopped(trap));
                                },
                            }
                        },
                    }
                },
            }
        },
        _ => {},
    }
}

/// The program of one function, without parameters, that returns the
/// integer `e`.
pub open spec fn returning(name: Seq<char>, e: SpecExpression, header: Span, span: Span) -> SpecProgram {
    SpecProgram {
        functions: seq![
            SpecFunction {
                ident: name,
                params: Seq::empty(),
                return_type: Type::Int,
                body: SpecBlock {
                    statements: seq![SpecStatement::Return { value: Some(e), span }],
                },
                span: header,
            },
        ],
    }
}

/// What the evaluation of an expression of constant arithmetic ends in, as a
/// result of the machine.
pub open spec fn outcome_of(e: SpecExpression) -> Result<Value, Trap> {
    match constant(e) {
        Some(Ok(n)) => Ok(Value::Int(n)),
        Some(Err(trap)) => Err(trap),
        None => Err(Trap::Malformed),
    }
}

/// Compiled arithmetic is right, end to end: a function that returns an
/// expression of constant arithmetic compiles, and a call of it returns the
/// value of the expression, or ends in the trap in which the evaluation of
/// the expression ends, given fuel for every instruction and the return.
pub proof fn lemma_constant_function(
    name: Seq<char>,
    e: SpecExpression,
    header: Span,
    span: Span,
    fuel: nat,
)
    requires
        constant(e) is Some,
        cost(e) < usize::MAX,
        fuel > cost(e),
    ensures
        super::rules::lowered_program(returning(name, e, header, span)) matches Ok(module)
            && called(module, 0, Seq::empty(), fuel) == outcome_of(e),
{
    let program = returning(name, e, header, span);
    let function = program.functions[0];
    let body = function.body;
    let statement = body.statements[0];
    let names = super::rules::function_names(program.functions);
    assert(names.len() == 1 && names[0] == name);
    let unit = super::rules::declared(program);
    reveal(super::rules::lowered_functions);
    unfold::lemma_lowered_routine(unit, name, Seq::empty(), Type::Int, body, header);
    let s = State { unit, function: super::rules::entry(Seq::empty(), Type::Int) };
    assert(s.function == SpecBuilder::empty(Type::Int).enter_scope());
    unfold::lemma_lowered_block(s, body);
    let s0 = s.enter_scope();
    unfold::lemma_lowered_statements(s0, body.statements, 0);
    unfold::lemma_lowered_statement(s0, statement);
    unfold::lemma_lowered_return(s0, statement);
    lemma_constant_lowers(s0, e, span);
    let (s1, v) = lowered_expression(s0, e, span)->Ok_0;
    let s2 = super::rules::returned(s1, Some(v.value));
    unfold::lemma_lowered_statements(s2, body.statements, 1);
    let s3 = s2.exit_scope();
    let closed = s3.function.terminate(super::rules::fall_through(Type::Int), s3.function.current);
    let routine = closed.routine(
        name,
        super::rules::signature_of(Seq::empty(), Type::Int),
    );
    let code = s1.function.code;
    assert(routine.code == code);
    assert(code.len() == cost(e));
    assert(routine.blocks.len() == 2);
    assert(routine.blocks[0] == super::ir::BasicBlock {
        start: 0,
        end: code.len() as usize,
        terminator: super::ir::Terminator::Return { value: Some(v.value) },
    });
    assert(super::rules::find_function(names, name, 0) == Some(0usize));
    assert(super::rules::first_duplicate(names, 1) is None);
    assert(super::rules::first_duplicate(names, 0) is None);
    assert(super::rules::lowered_routine(unit, name, Seq::empty(), Type::Int, body, header)
        == Ok::<(super::rules::Unit, super::ir::SpecRoutine), crate::error::SpecCompileError>(
        (unit, routine),
    ));
    let module = super::rules::lowered_program(program)->Ok_0;
    assert(super::rules::lowered_functions(unit, program.functions, 1, seq![routine]) == Ok::<
        (super::rules::Unit, Seq<super::ir::SpecRoutine>),
        crate::error::SpecCompileError,
    >((unit, seq![routine])));
    assert(Seq::<super::ir::SpecRoutine>::empty().push(routine) =~= seq![routine]);
    assert(module.routines =~= seq![routine]);
    assert(module.routines[0] == routine);

    reveal(entered);
    let fr = SpecFrame {
        function: 0,
        block: 0,
        next: 0,
        values: Seq::new(code.len(), |i: int| None),
        slots: Seq::new(routine.slots.len(), |i: int| None),
        arguments: Seq::empty(),
    };
    assert(routine.signature.params.len() == 0);
    assert(entered(routine, 0, Seq::empty())->0.slots =~= fr.slots);
    assert(entered(routine, 0, Seq::empty()) == Some(fr));
    let rest = Seq::<SpecFrame>::empty();
    assert(seq![fr] =~= rest.push(fr));
    assert(hosts(module, fr, code, code.len() as int));
    lemma_constant_runs(module, rest, fr, s0, e, span);
    match constant(e)->0 {
        Ok(n) => {
            let out = steps(module, rest.push(fr), cost(e))->Running_0;
            let fr2 = out.last();
            lemma_top(rest, out);
            reveal(step);
            reveal(after_terminator);
            reveal(exit_of);
            reveal(after_return);
            assert(out.drop_last() =~= rest);
            assert(step(module, out) == Progress::Finished(Value::Int(n)));
            assert(steps(module, out, 1) == Progress::Finished(Value::Int(n)));
            lemma_steps_add(module, rest.push(fr), cost(e), 1);
            lemma_run_is_steps(module, rest.push(fr), cost(e) + 1, (fuel - cost(e) - 1) as nat);
        },
        Err(trap) => {
            let j = choose|j: nat|
                j <= cost(e) && #[trigger] steps(module, rest.push(fr), j) == Progress::Stopped(
                    trap,
                );
            lemma_run_is_steps(module, rest.push(fr), j, (fuel - j) as nat);
        },
    }
}

} // verus!
