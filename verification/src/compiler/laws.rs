//! What holds of the lowering rules and of the machine, stated once and for
//! every input.

use super::builder::Typed;
use super::frame::{
    lemma_block_frame, lemma_condition_frame, lemma_expression_frame, lemma_frame_chain,
    lemma_logical_split_frame, lemma_loop_entry_frame, lemma_statement_frame, lemma_then_add_block,
    lemma_then_emit, lemma_then_terminate,
};
use super::ir::{SpecModule, SpecRoutine, Terminator, ValueType};
use super::machine::{exit_of, operand, Exit, SpecFrame, Value};
use super::rules::{
    declared, first_duplicate, function_names, logical_split, lowered_expression,
    lowered_functions, lowered_return, lowered_routine, lowered_statement, State, Unit,
};
use super::spec_compile;
use super::unfold::{
    lemma_lowered_block, lemma_lowered_do_until, lemma_lowered_for, lemma_lowered_logical,
    lemma_lowered_statement, lemma_lowered_statements, lemma_lowered_while,
};
use crate::ast::{SpecBlock, SpecExpression, SpecFunction, SpecProgram, SpecStatement};
use crate::error::{Span, SpecCompileError};
use crate::lexer::spec_lex;
use crate::parser::grammar::spec_parse;
use vstd::prelude::*;

verus! {

/// The while form of a for statement:
/// `{ init while (condition) { { body } increment } }`.
pub open spec fn while_form(
    init: SpecStatement,
    condition: SpecExpression,
    increment: SpecStatement,
    body: SpecBlock,
    span: Span,
) -> SpecStatement {
    SpecStatement::Block {
        block: Box::new(
            SpecBlock {
                statements: seq![
                    init,
                    SpecStatement::While {
                        condition,
                        body: SpecBlock {
                            statements: seq![
                                SpecStatement::Block { block: Box::new(body), span },
                                increment,
                            ],
                        },
                        span,
                    },
                ],
            },
        ),
        span,
    }
}

/// A for statement lowers exactly as its while form does: to the same
/// code in the same state, or to the same error.
pub proof fn lemma_for_is_while(
    s: State,
    init: SpecStatement,
    condition: SpecExpression,
    increment: SpecStatement,
    body: SpecBlock,
    span: Span,
)
    ensures
        lowered_statement(
            s,
            SpecStatement::For {
                init: Box::new(init),
                condition,
                increment: Box::new(increment),
                body,
                span,
            },
        ) == lowered_statement(s, while_form(init, condition, increment, body, span)),
{
    let for_statement = SpecStatement::For {
        init: Box::new(init),
        condition,
        increment: Box::new(increment),
        body,
        span,
    };
    let inner = SpecBlock {
        statements: seq![SpecStatement::Block { block: Box::new(body), span }, increment],
    };
    let while_statement = SpecStatement::While { condition, body: inner, span };
    let outer = SpecBlock { statements: seq![init, while_statement] };
    let rewritten = SpecStatement::Block { block: Box::new(outer), span };
    assert(rewritten == while_form(init, condition, increment, body, span));

    lemma_lowered_statement(s, for_statement);
    lemma_lowered_for(s, for_statement);
    lemma_lowered_statement(s, rewritten);
    lemma_lowered_block(s, outer);
    lemma_lowered_statements(s.enter_scope(), outer.statements, 0);
    match lowered_statement(s.enter_scope(), init) {
        Err(_) => {},
        Ok((s1, _)) => {
            lemma_lowered_statements(s1, outer.statements, 1);
            lemma_lowered_statement(s1, while_statement);
            lemma_lowered_while(s1, while_statement);
            match super::rules::lowered_condition(super::rules::loop_entry(s1), condition, span) {
                Err(_) => {},
                Ok((s2, c)) => {
                    let s_body = super::rules::loop_branch(s2, s1.function.next_block(), c);
                    lemma_lowered_block(s_body, inner);
                    lemma_lowered_statements(s_body.enter_scope(), inner.statements, 0);
                    lemma_lowered_statement(s_body.enter_scope(), inner.statements[0]);
                    match super::rules::lowered_block(s_body.enter_scope(), body) {
                        Err(_) => {},
                        Ok((s3, _)) => {
                            lemma_lowered_statements(s3, inner.statements, 1);
                            match lowered_statement(s3, increment) {
                                Err(_) => {},
                                Ok((s4, _)) => {
                                    lemma_lowered_statements(s4, inner.statements, 2);
                                    let s5 = super::rules::loop_back(
                                        s4.exit_scope(),
                                        s1.function.next_block(),
                                    );
                                    lemma_lowered_statements(s5, outer.statements, 2);
                                },
                            }
                        },
                    }
                },
            }
        },
    }
}

/// Where the left operand of a logical operator decides the result (true
/// for `or`, false for `and`), the branch after it goes to the block where
/// both paths meet, not to the block of the right operand: the right operand
/// is not evaluated.
pub proof fn lemma_short_circuit(s: State, l: Typed, is_or: bool, frame: SpecFrame)
    requires
        s.function.current < s.function.blocks.len(),
        s.function.blocks.len() + 2 <= usize::MAX,
        operand(frame, l.value) == Some(Value::Bool(is_or)),
    ensures
        ({
            let right_block = s.function.next_block();
            let meet = (right_block + 1) as usize;
            let after = logical_split(s, l, is_or);
            &&& after.function.current == right_block
            &&& meet != right_block
            &&& exit_of(
                frame,
                after.function.blocks[s.function.current as int].terminator,
            ) == Exit::Goto(meet)
        }),
{
    reveal(exit_of);
}

/// Where the left operand of a logical operator does not decide the result,
/// the branch after it goes to the block of the right operand.
pub proof fn lemma_no_short_circuit(s: State, l: Typed, is_or: bool, frame: SpecFrame)
    requires
        s.function.current < s.function.blocks.len(),
        s.function.blocks.len() + 2 <= usize::MAX,
        operand(frame, l.value) == Some(Value::Bool(!is_or)),
    ensures
        ({
            let right_block = s.function.next_block();
            let after = logical_split(s, l, is_or);
            exit_of(frame, after.function.blocks[s.function.current as int].terminator)
                == Exit::Goto(right_block)
        }),
{
    reveal(exit_of);
}

/// A jump goes to its target whatever the frame holds, and a branch goes to
/// its first target when its condition is true, to its second when it is
/// false.
pub proof fn lemma_jump_and_branch(
    frame: SpecFrame,
    target: usize,
    condition: usize,
    then_target: usize,
    else_target: usize,
    b: bool,
)
    requires
        operand(frame, condition) == Some(Value::Bool(b)),
    ensures
        exit_of(frame, Terminator::Jump { target }) == Exit::Goto(target),
        exit_of(frame, Terminator::Branch { condition, then_target, else_target }) == Exit::Goto(
            if b {
                then_target
            } else {
                else_target
            },
        ),
{
    reveal(exit_of);
}

/// Whether a terminator is a branch to `then_target` when its condition is
/// true and to `else_target` when it is false.
pub open spec fn branches_to(terminator: Terminator, then_target: usize, else_target: usize) -> bool {
    terminator matches Terminator::Branch { then_target: t, else_target: e, .. } && t == then_target
        && e == else_target
}

/// The body of a do-until loop runs at least once, and again while the
/// condition is false: the block that is current where the statement begins
/// jumps to the body without a condition, and the block that ends with the
/// condition branches to the exit when the condition is true and back to
/// the body when it is false.  What follows the loop goes into the exit.
pub proof fn lemma_do_until_shape(s: State, statement: SpecStatement)
    requires
        statement is DoUntil,
        s.function.current < s.function.blocks.len(),
        s.function.scopes.len() > 0,
    ensures
        super::rules::lowered_do_until(s, statement) matches Ok((after, _))
            ==> after.function.bounded() ==> ({
            let body_block = s.function.blocks.len() as usize;
            let exit = (body_block + 1) as usize;
            &&& after.function.blocks[s.function.current as int].terminator == (Terminator::Jump {
                target: body_block,
            })
            &&& after.function.current == exit
            &&& exists|last: int|
                0 <= last < after.function.blocks.len() && branches_to(
                    (#[trigger] after.function.blocks[last]).terminator,
                    exit,
                    body_block,
                )
        }),
{
    lemma_lowered_do_until(s, statement);
    match statement {
        SpecStatement::DoUntil { condition, body, span } => {
            let body_block = s.function.next_block();
            let exit = (body_block + 1) as usize;
            let jump = Terminator::Jump { target: body_block };
            lemma_then_add_block(s, s);
            lemma_then_add_block(s, s.add_block());
            lemma_then_terminate(s, s.add_block().add_block(), jump, body_block);
            let s0 = s.add_block().add_block().terminate(jump, body_block);
            lemma_statement_frame(s0, *body);
            match lowered_statement(s0, *body) {
                Err(_) => {},
                Ok((s1, _)) => {
                    lemma_condition_frame(s1, condition, span);
                    match super::rules::lowered_condition(s1, condition, span) {
                        Err(_) => {},
                        Ok((s2, c)) => {
                            lemma_frame_chain(s0, s1, s2);
                            let branch = Terminator::Branch {
                                condition: c,
                                then_target: exit,
                                else_target: body_block,
                            };
                            let after = s2.terminate(branch, exit);
                            if after.function.bounded() {
                                assert(s2.function.bounded());
                                assert(s0.function.bounded());
                                assert(s0.function.blocks[s.function.current as int].terminator
                                    == jump);
                                assert(s2.function.blocks[s.function.current as int]
                                    == s0.function.blocks[s.function.current as int]);
                                assert(after.function.blocks[s2.function.current as int].terminator
                                    == branch);
                            }
                        },
                    }
                },
            }
        },
        _ => {},
    }
}

/// A while loop tests its condition before every iteration: the block that
/// is current where the statement begins jumps to the header, where the
/// condition is evaluated; a block branches to the body when the condition
/// is true and to the exit when it is false; and the body ends in a block
/// that jumps back to the header.  What follows the loop goes into the
/// exit.
pub proof fn lemma_while_shape(s: State, statement: SpecStatement)
    requires
        statement is While,
        s.function.current < s.function.blocks.len(),
    ensures
        super::rules::lowered_while(s, statement) matches Ok((after, _))
            ==> after.function.bounded() ==> ({
            let header = s.function.blocks.len() as usize;
            let body_block = (header + 1) as usize;
            let exit = (header + 2) as usize;
            &&& after.function.blocks[s.function.current as int].terminator == (Terminator::Jump {
                target: header,
            })
            &&& after.function.current == exit
            &&& exists|last: int|
                0 <= last < after.function.blocks.len() && branches_to(
                    (#[trigger] after.function.blocks[last]).terminator,
                    body_block,
                    exit,
                )
            &&& exists|back: int|
                s.function.blocks.len() <= back < after.function.blocks.len() && (
                #[trigger] after.function.blocks[back]).terminator == (Terminator::Jump {
                    target: header,
                })
        }),
{
    lemma_lowered_while(s, statement);
    match statement {
        SpecStatement::While { condition, body, span } => {
            let header = s.function.next_block();
            let entered = super::rules::loop_entry(s);
            lemma_loop_entry_frame(s, s);
            lemma_condition_frame(entered, condition, span);
            match super::rules::lowered_condition(entered, condition, span) {
                Err(_) => {},
                Ok((s1, c)) => {
                    let s2 = super::rules::loop_branch(s1, header, c);
                    lemma_block_frame(s2, body);
                    match super::rules::lowered_block(s2, body) {
                        Err(_) => {},
                        Ok((s3, _)) => {
                            let after = super::rules::loop_back(s3, header);
                            if after.function.bounded() {
                                assert(s3.function.bounded());
                                assert(s2.function.bounded());
                                assert(s1.function.bounded());
                                assert(entered.function.bounded());
                                assert(entered.function.blocks[s.function.current as int].terminator
                                    == (Terminator::Jump { target: header }));
                                assert(s1.function.blocks[s.function.current as int]
                                    == entered.function.blocks[s.function.current as int]);
                                assert(s1.function.current < s1.function.blocks.len());
                                assert(s1.function.current != s.function.current);
                                assert(branches_to(
                                    s2.function.blocks[s1.function.current as int].terminator,
                                    (header + 1) as usize,
                                    (header + 2) as usize,
                                ));
                                assert(s2.function.blocks[s.function.current as int]
                                    == s1.function.blocks[s.function.current as int]);
                                assert(s3.function.blocks[s.function.current as int]
                                    == s2.function.blocks[s.function.current as int]);
                                assert(s3.function.blocks[s1.function.current as int]
                                    == s2.function.blocks[s1.function.current as int]);
                                assert(s3.function.current < s3.function.blocks.len());
                                assert(after.function.blocks[s1.function.current as int]
                                    == s3.function.blocks[s1.function.current as int]);
                                assert(after.function.blocks[s3.function.current as int].terminator
                                    == (Terminator::Jump { target: header }));
                            }
                        },
                    }
                },
            }
        },
        _ => {},
    }
}

/// Short circuit, in the lowered function: the block in which the left
/// operand of `and` or `or` ends branches on the operand's value.  Where the
/// value decides the result, it goes to the block where both paths meet;
/// only otherwise does it go to the block that holds the right operand.
pub proof fn lemma_logical_shape(s: State, e: SpecExpression, span: Span)
    requires
        e matches SpecExpression::Binary { operator, .. } && (operator is And || operator is Or),
        s.function.current < s.function.blocks.len(),
    ensures
        super::rules::lowered_logical(s, e, span) matches Ok((after, _))
            ==> after.function.bounded() ==> ({
            let (s1, l) = super::rules::lowered_expression(s, *e->Binary_left, span)->Ok_0;
            let right_block = s1.function.blocks.len() as usize;
            let meet = (right_block + 1) as usize;
            &&& super::rules::lowered_expression(s, *e->Binary_left, span) is Ok
            &&& s1.function.current < after.function.blocks.len()
            &&& after.function.blocks[s1.function.current as int].terminator == (
            if e->Binary_operator is Or {
                Terminator::Branch { condition: l.value, then_target: meet, else_target: right_block }
            } else {
                Terminator::Branch { condition: l.value, then_target: right_block, else_target: meet }
            })
            &&& after.function.current == meet
        }),
{
    lemma_lowered_logical(s, e, span);
    match e {
        SpecExpression::Binary { left, operator, right } => {
            lemma_expression_frame(s, *left, span);
            match super::rules::lowered_expression(s, *left, span) {
                Err(_) => {},
                Ok((s1, l)) => {
                    let split = logical_split(s1, l, operator is Or);
                    lemma_logical_split_frame(s1, s1, l, operator is Or);
                    lemma_expression_frame(split, *right, span);
                    match super::rules::lowered_expression(split, *right, span) {
                        Err(_) => {},
                        Ok((s2, r)) => {
                            let slot = s1.function.next_slot();
                            let meet = (s1.function.next_block() + 1) as usize;
                            let store = super::ir::Instruction::Store { slot, value: r.value };
                            let s3 = s2.emit(store);
                            lemma_then_emit(split, s2, store);
                            let jump = Terminator::Jump { target: meet };
                            let s4 = s3.terminate(jump, meet);
                            let after = s4.emit(super::ir::Instruction::Load { slot });
                            if after.function.bounded() {
                                assert(s3.function.bounded());
                                assert(s2.function.bounded());
                                assert(split.function.bounded());
                                assert(s1.function.bounded());
                                assert(s1.function.current < s1.function.blocks.len());
                                assert(split.function.blocks[s1.function.current as int]
                                    == s4.function.blocks[s1.function.current as int]);
                            }
                        },
                    }
                },
            }
        },
        _ => {},
    }
}

/// The unit in which the function of index `k` is lowered, when the
/// functions from index `i` on are lowered in order from `unit`.
pub open spec fn unit_at(unit: Unit, functions: Seq<SpecFunction>, i: int, k: int) -> Unit
    decreases k - i,
{
    if i >= k || i < 0 || i >= functions.len() {
        unit
    } else {
        match lowered_routine(
            unit,
            functions[i].ident,
            functions[i].params,
            functions[i].return_type,
            functions[i].body,
            functions[i].span,
        ) {
            Ok((next, _)) => unit_at(next, functions, i + 1, k),
            Err(_) => unit,
        }
    }
}

/// What the function of index `k` lowers to in its turn.
pub open spec fn routine_at(unit: Unit, functions: Seq<SpecFunction>, i: int, k: int) -> Result<
    (Unit, SpecRoutine),
    SpecCompileError,
> {
    lowered_routine(
        unit_at(unit, functions, i, k),
        functions[k].ident,
        functions[k].params,
        functions[k].return_type,
        functions[k].body,
        functions[k].span,
    )
}

/// All or nothing: the functions of a unit lower together exactly when each
/// of them lowers in its turn.  One function that does not lower leaves no
/// routine of any function, the ones before it included.
pub proof fn lemma_all_or_nothing(
    unit: Unit,
    functions: Seq<SpecFunction>,
    i: int,
    done: Seq<SpecRoutine>,
)
    requires
        0 <= i <= functions.len(),
    ensures
        lowered_functions(unit, functions, i, done) is Ok <==> forall|k: int|
            i <= k < functions.len() ==> (#[trigger] routine_at(unit, functions, i, k)) is Ok,
    decreases functions.len() - i,
{
    reveal(lowered_functions);
    if i < functions.len() {
        let first = lowered_routine(
            unit,
            functions[i].ident,
            functions[i].params,
            functions[i].return_type,
            functions[i].body,
            functions[i].span,
        );
        assert(routine_at(unit, functions, i, i) == first);
        match first {
            Err(_) => {},
            Ok((next, routine)) => {
                lemma_all_or_nothing(next, functions, i + 1, done.push(routine));
                assert forall|k: int| i + 1 <= k < functions.len() implies routine_at(
                    unit,
                    functions,
                    i,
                    k,
                ) == routine_at(next, functions, i + 1, k) by {}
                if lowered_functions(unit, functions, i, done) is Ok {
                    assert forall|k: int| i <= k < functions.len() implies (#[trigger] routine_at(
                        unit,
                        functions,
                        i,
                        k,
                    )) is Ok by {
                        if k > i {
                            assert(routine_at(next, functions, i + 1, k) is Ok);
                        }
                    }
                } else {
                    let k = choose|k: int|
                        i + 1 <= k < functions.len() && !(#[trigger] routine_at(
                            next,
                            functions,
                            i + 1,
                            k,
                        ) is Ok);
                    assert(!(routine_at(unit, functions, i, k) is Ok));
                }
            },
        }
    }
}

/// The first function that does not lower decides the outcome: its error
/// is the error of the whole, and nothing is kept of the functions that
/// lowered before it.
pub proof fn lemma_first_failure(
    unit: Unit,
    functions: Seq<SpecFunction>,
    i: int,
    done: Seq<SpecRoutine>,
    k: int,
)
    requires
        0 <= i <= k < functions.len(),
        forall|j: int| i <= j < k ==> (#[trigger] routine_at(unit, functions, i, j)) is Ok,
        routine_at(unit, functions, i, k) is Err,
    ensures
        lowered_functions(unit, functions, i, done) == Err::<
            (Unit, Seq<SpecRoutine>),
            SpecCompileError,
        >(routine_at(unit, functions, i, k)->Err_0),
    decreases k - i,
{
    reveal(lowered_functions);
    let first = lowered_routine(
        unit,
        functions[i].ident,
        functions[i].params,
        functions[i].return_type,
        functions[i].body,
        functions[i].span,
    );
    assert(routine_at(unit, functions, i, i) == first);
    if i < k {
        let (next, routine) = first->Ok_0;
        assert forall|j: int| i + 1 <= j < k implies (#[trigger] routine_at(
            next,
            functions,
            i + 1,
            j,
        )) is Ok by {
            assert(routine_at(unit, functions, i, j) == routine_at(next, functions, i + 1, j));
        }
        assert(routine_at(unit, functions, i, k) == routine_at(next, functions, i + 1, k));
        lemma_first_failure(next, functions, i + 1, done.push(routine), k);
    }
}

/// A return whose value has another type than the function returns does not
/// lower: it is a semantic error at the span of the return statement.
pub proof fn lemma_mismatched_return(s: State, value: SpecExpression, span: Span)
    ensures
        lowered_expression(s, value, span) matches Ok((after, typed)) ==> typed.value_type
            != ValueType::Data(after.function.return_type) ==> lowered_return(
            s,
            SpecStatement::Return { value: Some(value), span },
        ) == Err::<(State, ()), SpecCompileError>(
            SpecCompileError::SemanticError("Mismatched return type"@, span),
        ),
{
    reveal(lowered_return);
}

/// The program that a source text writes, where it scans and parses.
pub open spec fn program_of(source: Seq<char>) -> Option<SpecProgram> {
    match spec_lex(source) {
        Err(_) => None,
        Ok(tokens) => match spec_parse(tokens) {
            Err(_) => None,
            Ok(program) => Some(program),
        },
    }
}

/// All or nothing, from the text: a source compiles to a module exactly
/// when it scans and parses, names no function twice, and every function
/// lowers in its turn.
pub proof fn lemma_compile_all_or_nothing(source: Seq<char>)
    ensures
        spec_compile(source) is Ok <==> (program_of(source) matches Some(program)
            && first_duplicate(function_names(program.functions), 0) is None && forall|k: int|
            0 <= k < program.functions.len() ==> (#[trigger] routine_at(
                declared(program),
                program.functions,
                0,
                k,
            )) is Ok),
{
    match program_of(source) {
        None => {},
        Some(program) => {
            lemma_all_or_nothing(declared(program), program.functions, 0, Seq::empty());
        },
    }
}

/// From the text: where every function before the one of index `k` lowers
/// and that one does not, the compile fails with its error, whatever
/// follows it.
pub proof fn lemma_compile_first_failure(source: Seq<char>, k: int)
    requires
        program_of(source) matches Some(program) && first_duplicate(
            function_names(program.functions),
            0,
        ) is None && 0 <= k < program.functions.len() && routine_at(
            declared(program),
            program.functions,
            0,
            k,
        ) is Err && forall|j: int|
            0 <= j < k ==> (#[trigger] routine_at(declared(program), program.functions, 0, j)) is Ok,
    ensures
        spec_compile(source) == Err::<SpecModule, SpecCompileError>(
            routine_at(
                declared(program_of(source)->0),
                program_of(source)->0.functions,
                0,
                k,
            )->Err_0,
        ),
{
    let program = program_of(source)->0;
    lemma_first_failure(declared(program), program.functions, 0, Seq::empty(), k);
}

} // verus!
