//! Lowering: from the abstract syntax tree to routines, with scope and type
//! checks on the way.  Every function here returns what `rules` states.

use super::builder::{FunctionBuilder, Slot, SpecBuilder, Typed};
use super::ir::{
    lemma_push_routine, lemma_push_signature, lemma_push_text, routines_view, signatures_view,
    texts, FunctionSignature, Instruction, Module, Operation, Routine, Terminator, UnaryOperation,
    ValueType,
};
use super::rules::{
    applies, assign_operation, bound_parameters, declared, entry, find_function, finish_binary,
    finish_compound, finish_unary, first_duplicate, function_names, function_signatures,
    logical_split, loop_back, loop_branch, loop_entry, lowered_arguments, lowered_assignment,
    lowered_binary, lowered_block, lowered_call, lowered_call_of, lowered_compound,
    lowered_condition, lowered_declaration, lowered_do_until, lowered_expression, lowered_for,
    lowered_functions, lowered_identifier, lowered_if, lowered_literal, lowered_logical,
    lowered_program, lowered_return, lowered_routine, lowered_statement, lowered_statements,
    lowered_step, lowered_unary, lowered_while, operation_of, parameter_types, result_type,
    returned, same_type, semantic, signature_of, supported_parameter, supported_parameters, Callee,
    State, Step, Unit,
};
use super::unfold;
use super::wellformed::{lemma_program_wf, routine_bounded};
use crate::ast::{
    expressions_view, lemma_block_view, lemma_call_view, lemma_parameters_view, lemma_program_view,
    statements_view, AssignOperator, BinaryOperator, Block, Expression, Function, Parameters,
    PostfixOperator, PrefixOperator, Program, Statement, Type, UnaryOperator,
};
use crate::error::{CompileError, CompileResult, Span, SpecCompileError};
use vstd::prelude::*;
use vstd::string::StringExecFns;

verus! {

/// The unit under construction.
struct UnitBuilder {
    names: Vec<String>,
    signatures: Vec<FunctionSignature>,
    lifted: Vec<Routine>,
}

impl View for UnitBuilder {
    type V = Unit;

    closed spec fn view(&self) -> Unit {
        Unit {
            names: texts(self.names@),
            signatures: signatures_view(self.signatures@),
            lifted: routines_view(self.lifted@),
        }
    }
}

/// The mathematical value of a lowering step that ended in the given state.
/// A step that fails leaves in the builders what it had written up to the
/// error; `lower_program` drops them with the error, so that nothing of a
/// unit that failed can be reached.
pub open spec fn outcome<T>(r: CompileResult<T>, unit: Unit, function: SpecBuilder) -> Step<T> {
    match r {
        Ok(v) => Ok((State { unit, function }, v)),
        Err(e) => Err(e@),
    }
}

/// A semantic error.
fn error(message: &str, span: Span) -> (e: CompileError)
    ensures
        e@ == semantic(message@, span),
{
    CompileError::SemanticError(String::from_str(message), span)
}

/// The error for a name that nothing in scope has.
fn unknown_identifier(ident: &String, span: Span) -> (e: CompileError)
    ensures
        e@ == semantic("Unknown identifier: "@ + ident@, span),
{
    let mut message = String::from_str("Unknown identifier: ");
    message.append(ident.as_str());
    CompileError::SemanticError(message, span)
}

impl UnitBuilder {
    /// The index of the function of that name.
    fn find(&self, name: &String) -> (r: Option<usize>)
        ensures
            r == find_function(self@.names, name@, 0),
    {
        let mut i: usize = 0;
        while i < self.names.len()
            invariant
                i <= self.names.len(),
                find_function(self@.names, name@, 0) == find_function(self@.names, name@, i as int),
            decreases self.names.len() - i,
        {
            if self.names[i] == *name {
                return Some(i);
            }
            i += 1;
        }
        None
    }
}

/// A name.
fn lower_identifier(unit: &UnitBuilder, f: &mut FunctionBuilder, ident: &String, span: Span) -> (r:
    CompileResult<Typed>)
    ensures
        outcome(r, unit@, final(f)@) == lowered_identifier(
            State { unit: unit@, function: old(f)@ },
            ident@,
            span,
        ),
{
    reveal(lowered_identifier);
    match f.lookup(ident) {
        Some(slot) => {
            let value = f.emit(Instruction::Load { slot: slot.index });
            Ok(Typed { value, value_type: slot.value_type })
        },
        None => match unit.find(ident) {
            Some(function) => {
                let value = f.emit(Instruction::FunctionRef { function });
                Ok(Typed { value, value_type: ValueType::Function(function) })
            },
            None => Err(unknown_identifier(ident, span)),
        },
    }
}

/// The operation that a binary operator lowers to.
fn operation(operator: BinaryOperator) -> (r: Option<Operation>)
    ensures
        r == operation_of(operator),
{
    match operator {
        BinaryOperator::Plus => Some(Operation::Add),
        BinaryOperator::Minus => Some(Operation::Subtract),
        BinaryOperator::Star => Some(Operation::Multiply),
        BinaryOperator::Slash => Some(Operation::Divide),
        BinaryOperator::EqualEqual => Some(Operation::Equal),
        BinaryOperator::BangEqual => Some(Operation::NotEqual),
        BinaryOperator::Greater => Some(Operation::Greater),
        BinaryOperator::GreaterEqual => Some(Operation::GreaterEqual),
        BinaryOperator::Less => Some(Operation::Less),
        BinaryOperator::LessEqual => Some(Operation::LessEqual),
        _ => None,
    }
}

/// Whether an operation is defined on operands of type `t`.
fn operation_applies(operation: Operation, t: Type) -> (r: bool)
    ensures
        r == applies(operation, t),
{
    match t {
        Type::Int => true,
        Type::Float => true,
        Type::Bool => matches!(operation, Operation::Equal | Operation::NotEqual),
        _ => false,
    }
}

/// The type of the result of an operation on operands of type `t`.
fn operation_result(operation: Operation, t: Type) -> (r: Type)
    ensures
        r == result_type(operation, t),
{
    match operation {
        Operation::Add => t,
        Operation::Subtract => t,
        Operation::Multiply => t,
        Operation::Divide => t,
        _ => Type::Bool,
    }
}

/// The operation of `operator` on the lowered operands `l` and `r`.
fn lower_operation(
    unit: &UnitBuilder,
    f: &mut FunctionBuilder,
    operator: BinaryOperator,
    l: Typed,
    r: Typed,
    span: Span,
) -> (out: CompileResult<Typed>)
    ensures
        outcome(out, unit@, final(f)@) == finish_binary(
            State { unit: unit@, function: old(f)@ },
            operator,
            l,
            r,
            span,
        ),
{
    reveal(finish_binary);
    match operation(operator) {
        None => Err(error("Operator is not implemented", span)),
        Some(op) => match (l.value_type, r.value_type) {
            (ValueType::Data(t), ValueType::Data(u)) => {
                if t != u {
                    Err(error("Mismatched types", span))
                } else if !operation_applies(op, t) {
                    Err(error("Operator is not defined for this type", span))
                } else {
                    let value = f.emit(
                        Instruction::Binary {
                            operation: op,
                            operand_type: t,
                            left: l.value,
                            right: r.value,
                        },
                    );
                    Ok(Typed { value, value_type: ValueType::Data(operation_result(op, t)) })
                }
            },
            _ => Err(error("Operator is not defined for this type", span)),
        },
    }
}

/// The operation of `operator` on the lowered operand `r`.
fn lower_unary_operation(
    unit: &UnitBuilder,
    f: &mut FunctionBuilder,
    operator: UnaryOperator,
    r: Typed,
    span: Span,
) -> (out: CompileResult<Typed>)
    ensures
        outcome(out, unit@, final(f)@) == finish_unary(
            State { unit: unit@, function: old(f)@ },
            operator,
            r,
            span,
        ),
{
    reveal(finish_unary);
    match (operator, r.value_type) {
        (UnaryOperator::Minus, ValueType::Data(Type::Int)) => {
            let value = f.emit(
                Instruction::Unary {
                    operation: UnaryOperation::Negate,
                    operand_type: Type::Int,
                    operand: r.value,
                },
            );
            Ok(Typed { value, value_type: ValueType::Data(Type::Int) })
        },
        (UnaryOperator::Minus, ValueType::Data(Type::Float)) => {
            let value = f.emit(
                Instruction::Unary {
                    operation: UnaryOperation::Negate,
                    operand_type: Type::Float,
                    operand: r.value,
                },
            );
            Ok(Typed { value, value_type: ValueType::Data(Type::Float) })
        },
        (UnaryOperator::Bang, ValueType::Data(Type::Bool)) => {
            let value = f.emit(
                Instruction::Unary {
                    operation: UnaryOperation::Not,
                    operand_type: Type::Bool,
                    operand: r.value,
                },
            );
            Ok(Typed { value, value_type: ValueType::Data(Type::Bool) })
        },
        _ => Err(error("Operator is not defined for this type", span)),
    }
}

/// `++` and `--` on `target`.
fn lower_step(
    unit: &UnitBuilder,
    f: &mut FunctionBuilder,
    target: &Expression,
    increment: bool,
    prefix: bool,
    span: Span,
) -> (r: CompileResult<Typed>)
    ensures
        outcome(r, unit@, final(f)@) == lowered_step(
            State { unit: unit@, function: old(f)@ },
            target@,
            increment,
            prefix,
            span,
        ),
{
    reveal(lowered_step);
    proof {
        f.lemma_bounded();
    }
    match target {
        Expression::Identifier { ident } => match f.lookup(ident) {
            None => Err(unknown_identifier(ident, span)),
            Some(slot) => {
                if slot.value_type != ValueType::Data(Type::Int) {
                    Err(error("Operator is not defined for this type", span))
                } else {
                    let old_value = f.emit(Instruction::Load { slot: slot.index });
                    let one = f.emit(Instruction::IntConst { value: 1 });
                    let new_value = f.emit(
                        Instruction::Binary {
                            operation: if increment {
                                Operation::Add
                            } else {
                                Operation::Subtract
                            },
                            operand_type: Type::Int,
                            left: old_value,
                            right: one,
                        },
                    );
                    proof {
                        f.lemma_bounded();
                    }
                    f.emit(Instruction::Store { slot: slot.index, value: new_value });
                    Ok(
                        Typed {
                            value: if prefix {
                                new_value
                            } else {
                                old_value
                            },
                            value_type: ValueType::Data(Type::Int),
                        },
                    )
                }
            },
        },
        _ => Err(error("Invalid assignment target", span)),
    }
}

/// The operation that a compound assignment applies.
fn compound_operation(operator: AssignOperator) -> (r: Operation)
    ensures
        r == assign_operation(operator),
{
    match operator {
        AssignOperator::PlusEqual => Operation::Add,
        AssignOperator::MinusEqual => Operation::Subtract,
        AssignOperator::StarEqual => Operation::Multiply,
        AssignOperator::SlashEqual => Operation::Divide,
    }
}

/// The compound assignment of the lowered operand `r` to the variable at
/// `slot`.
fn lower_compound_operation(
    unit: &UnitBuilder,
    f: &mut FunctionBuilder,
    slot: Slot,
    operation: Operation,
    r: Typed,
    span: Span,
) -> (out: CompileResult<Typed>)
    ensures
        outcome(out, unit@, final(f)@) == finish_compound(
            State { unit: unit@, function: old(f)@ },
            slot,
            operation,
            r,
            span,
        ),
{
    reveal(finish_compound);
    proof {
        f.lemma_bounded();
    }
    if slot.value_type != r.value_type {
        Err(error("Mismatched types", span))
    } else {
        match slot.value_type {
            ValueType::Data(Type::Int) | ValueType::Data(Type::Float) => {
                let operand_type = match slot.value_type {
                    ValueType::Data(t) => t,
                    _ => Type::Int,
                };
                let old_value = f.emit(Instruction::Load { slot: slot.index });
                let new_value = f.emit(
                    Instruction::Binary { operation, operand_type, left: old_value, right: r.value },
                );
                proof {
                    f.lemma_bounded();
                }
                f.emit(Instruction::Store { slot: slot.index, value: new_value });
                Ok(Typed { value: new_value, value_type: slot.value_type })
            },
            _ => Err(error("Operator is not defined for this type", span)),
        }
    }
}

/// An expression.  `span` is the span of the statement that holds it, for
/// errors.
fn lower_expression(
    unit: &mut UnitBuilder,
    f: &mut FunctionBuilder,
    e: &Expression,
    span: Span,
) -> (r: CompileResult<Typed>)
    ensures
        outcome(r, final(unit)@, final(f)@) == lowered_expression(
            State { unit: old(unit)@, function: old(f)@ },
            e@,
            span,
        ),
    decreases e, 2int,
{
    proof {
        unfold::lemma_lowered_expression(State { unit: unit@, function: f@ }, e@, span);
    }
    match e {
        Expression::IntegerLiteral { value } => {
            let value = f.emit(Instruction::IntConst { value: *value });
            Ok(Typed { value, value_type: ValueType::Data(Type::Int) })
        },
        Expression::FloatLiteral { value } => {
            let literal = f.add_float(value.clone());
            let value = f.emit(Instruction::FloatConst { literal });
            Ok(Typed { value, value_type: ValueType::Data(Type::Float) })
        },
        Expression::StringLiteral { .. } => Err(error("String values are not supported", span)),
        Expression::BooleanLiteral { value } => {
            let value = f.emit(Instruction::BoolConst { value: *value });
            Ok(Typed { value, value_type: ValueType::Data(Type::Bool) })
        },
        Expression::NullLiteral => {
            let value = f.emit(Instruction::NullConst);
            Ok(Typed { value, value_type: ValueType::Data(Type::Null) })
        },
        Expression::Identifier { ident } => lower_identifier(unit, f, ident, span),
        Expression::Binary { operator, .. } => {
            if matches!(operator, BinaryOperator::And | BinaryOperator::Or) {
                lower_logical(unit, f, e, span)
            } else {
                lower_binary(unit, f, e, span)
            }
        },
        Expression::Unary { .. } => lower_unary(unit, f, e, span),
        Expression::Grouping { expression } => lower_expression(unit, f, expression, span),
        Expression::Function { .. } => lower_literal(unit, f, e, span),
        Expression::Call { .. } => lower_call(unit, f, e, span),
        Expression::Postfix { left, operator } => lower_step(
            unit,
            f,
            left,
            matches!(operator, PostfixOperator::PlusPlus),
            false,
            span,
        ),
        Expression::Prefix { operator, right } => lower_step(
            unit,
            f,
            right,
            matches!(operator, PrefixOperator::PlusPlus),
            true,
            span,
        ),
        Expression::Assign { .. } => lower_compound(unit, f, e, span),
    }
}

/// An arithmetic or comparison operator.
fn lower_binary(unit: &mut UnitBuilder, f: &mut FunctionBuilder, e: &Expression, span: Span) -> (r:
    CompileResult<Typed>)
    ensures
        outcome(r, final(unit)@, final(f)@) == lowered_binary(
            State { unit: old(unit)@, function: old(f)@ },
            e@,
            span,
        ),
    decreases e, 1int,
{
    proof {
        unfold::lemma_lowered_binary(State { unit: unit@, function: f@ }, e@, span);
    }
    match e {
        Expression::Binary { left, operator, right } => {
            let l = lower_expression(unit, f, left, span)?;
            let r = lower_expression(unit, f, right, span)?;
            lower_operation(unit, f, *operator, l, r, span)
        },
        _ => Err(error("Not a binary expression", span)),
    }
}

/// The blocks and the branch after the left operand of a logical operator.
/// Returns the slot that keeps the result and the block where both paths
/// meet.
fn split_logical(unit: &UnitBuilder, f: &mut FunctionBuilder, l: Typed, is_or: bool) -> (r: (
    usize,
    usize,
))
    ensures
        (State { unit: unit@, function: final(f)@ }) == logical_split(
            State { unit: unit@, function: old(f)@ },
            l,
            is_or,
        ),
        r.0 == old(f)@.next_slot(),
        r.1 == (old(f)@.next_block() + 1) as usize,
{
    proof {
        f.lemma_bounded();
    }
    let slot = f.add_slot(ValueType::Data(Type::Bool));
    f.emit(Instruction::Store { slot, value: l.value });
    let right_block = f.add_block();
    proof {
        f.lemma_bounded();
    }
    let meet = f.add_block();
    if is_or {
        f.terminate(
            Terminator::Branch { condition: l.value, then_target: meet, else_target: right_block },
            right_block,
        );
    } else {
        f.terminate(
            Terminator::Branch { condition: l.value, then_target: right_block, else_target: meet },
            right_block,
        );
    }
    (slot, meet)
}

/// `and` and `or`.
fn lower_logical(unit: &mut UnitBuilder, f: &mut FunctionBuilder, e: &Expression, span: Span) -> (r:
    CompileResult<Typed>)
    ensures
        outcome(r, final(unit)@, final(f)@) == lowered_logical(
            State { unit: old(unit)@, function: old(f)@ },
            e@,
            span,
        ),
    decreases e, 1int,
{
    proof {
        unfold::lemma_lowered_logical(State { unit: unit@, function: f@ }, e@, span);
    }
    match e {
        Expression::Binary { left, operator, right } => {
            let l = lower_expression(unit, f, left, span)?;
            if l.value_type != ValueType::Data(Type::Bool) {
                return Err(error("Operand is not a bool", span));
            }
            let (slot, meet) = split_logical(unit, f, l, matches!(operator, BinaryOperator::Or));
            let r = lower_expression(unit, f, right, span)?;
            if r.value_type != ValueType::Data(Type::Bool) {
                return Err(error("Operand is not a bool", span));
            }
            f.emit(Instruction::Store { slot, value: r.value });
            f.terminate(Terminator::Jump { target: meet }, meet);
            let value = f.emit(Instruction::Load { slot });
            Ok(Typed { value, value_type: ValueType::Data(Type::Bool) })
        },
        _ => Err(error("Not a binary expression", span)),
    }
}

/// A unary operator.
fn lower_unary(unit: &mut UnitBuilder, f: &mut FunctionBuilder, e: &Expression, span: Span) -> (r:
    CompileResult<Typed>)
    ensures
        outcome(r, final(unit)@, final(f)@) == lowered_unary(
            State { unit: old(unit)@, function: old(f)@ },
            e@,
            span,
        ),
    decreases e, 1int,
{
    proof {
        unfold::lemma_lowered_unary(State { unit: unit@, function: f@ }, e@, span);
    }
    match e {
        Expression::Unary { operator, right } => {
            let r = lower_expression(unit, f, right, span)?;
            lower_unary_operation(unit, f, *operator, r, span)
        },
        _ => Err(error("Not a unary expression", span)),
    }
}

/// A compound assignment.
fn lower_compound(unit: &mut UnitBuilder, f: &mut FunctionBuilder, e: &Expression, span: Span) -> (r:
    CompileResult<Typed>)
    ensures
        outcome(r, final(unit)@, final(f)@) == lowered_compound(
            State { unit: old(unit)@, function: old(f)@ },
            e@,
            span,
        ),
    decreases e, 1int,
{
    proof {
        unfold::lemma_lowered_compound(State { unit: unit@, function: f@ }, e@, span);
    }
    match e {
        Expression::Assign { left, operator, right } => {
            let target: &Expression = left;
            assert(e@->Assign_left == target@);
            match target {
                Expression::Identifier { ident } => match f.lookup(ident) {
                    None => Err(unknown_identifier(ident, span)),
                    Some(slot) => {
                        let r = lower_expression(unit, f, right, span)?;
                        lower_compound_operation(
                            unit,
                            f,
                            slot,
                            compound_operation(*operator),
                            r,
                            span,
                        )
                    },
                },
                _ => Err(error("Invalid assignment target", span)),
            }
        },
        _ => Err(error("Not an assignment", span)),
    }
}

/// Who a call calls, in executable form.
#[derive(Clone, Copy)]
enum Target {
    Direct(usize),
    Indirect(usize, usize),
}

impl View for Target {
    type V = Callee;

    closed spec fn view(&self) -> Callee {
        match self {
            Target::Direct(function) => Callee::Direct { function: *function },
            Target::Indirect(callee, function) => Callee::Indirect {
                callee: *callee,
                function: *function,
            },
        }
    }
}

/// A call.
fn lower_call(unit: &mut UnitBuilder, f: &mut FunctionBuilder, e: &Expression, span: Span) -> (r:
    CompileResult<Typed>)
    ensures
        outcome(r, final(unit)@, final(f)@) == lowered_call(
            State { unit: old(unit)@, function: old(f)@ },
            e@,
            span,
        ),
    decreases e, 1int,
{
    proof {
        unfold::lemma_lowered_call(State { unit: unit@, function: f@ }, e@, span);
    }
    match e {
        Expression::Call { callee, arguments } => {
            let target: &Expression = callee;
            let direct = match target {
                Expression::Identifier { ident } => match f.lookup(ident) {
                    Some(_) => None,
                    None => unit.find(ident),
                },
                _ => None,
            };
            match direct {
                Some(function) => lower_call_of(unit, f, Target::Direct(function), e, span),
                None => {
                    let c = lower_expression(unit, f, callee, span)?;
                    match c.value_type {
                        ValueType::Function(function) => lower_call_of(
                            unit,
                            f,
                            Target::Indirect(c.value, function),
                            e,
                            span,
                        ),
                        _ => Err(error("Not a function", span)),
                    }
                },
            }
        },
        _ => Err(error("Not a call", span)),
    }
}

/// A copy of a list of types.
fn copy_types(types: &Vec<Type>) -> (r: Vec<Type>)
    ensures
        r@ == types@,
{
    let mut r: Vec<Type> = Vec::new();
    let mut i: usize = 0;
    while i < types.len()
        invariant
            i <= types.len(),
            r@ == types@.take(i as int),
        decreases types.len() - i,
    {
        r.push(types[i]);
        i += 1;
        assert(r@ =~= types@.take(i as int));
    }
    assert(r@ =~= types@);
    r
}

/// A copy of a signature.
fn copy_signature(signature: &FunctionSignature) -> (r: FunctionSignature)
    ensures
        r@ == signature@,
{
    FunctionSignature { params: copy_types(&signature.params), return_type: signature.return_type }
}

/// The arguments from index `i` on.
fn lower_arguments(
    unit: &mut UnitBuilder,
    f: &mut FunctionBuilder,
    arguments: &Vec<Expression>,
    i: usize,
    params: &Vec<Type>,
    span: Span,
) -> (r: CompileResult<()>)
    ensures
        outcome(r, final(unit)@, final(f)@) == lowered_arguments(
            State { unit: old(unit)@, function: old(f)@ },
            expressions_view(arguments@),
            i as int,
            params@,
            span,
        ),
    decreases arguments, arguments.len() - i,
{
    proof {
        unfold::lemma_lowered_arguments(
            State { unit: unit@, function: f@ },
            expressions_view(arguments@),
            i as int,
            params@,
            span,
        );
    }
    if i >= arguments.len() || i >= params.len() {
        return Ok(());
    }
    let a = lower_expression(unit, f, &arguments[i], span)?;
    if a.value_type != ValueType::Data(params[i]) {
        return Err(error("Mismatched types", span));
    }
    f.emit(Instruction::Argument { value: a.value });
    lower_arguments(unit, f, arguments, i + 1, params, span)
}

/// The arguments of the call `e` and the call itself.
fn lower_call_of(
    unit: &mut UnitBuilder,
    f: &mut FunctionBuilder,
    target: Target,
    e: &Expression,
    span: Span,
) -> (r: CompileResult<Typed>)
    ensures
        outcome(r, final(unit)@, final(f)@) == lowered_call_of(
            State { unit: old(unit)@, function: old(f)@ },
            target@,
            e@,
            span,
        ),
    decreases e, 0int,
{
    proof {
        unfold::lemma_lowered_call_of(State { unit: unit@, function: f@ }, target@, e@, span);
    }
    match e {
        Expression::Call { callee, arguments } => {
            proof {
                lemma_call_view(*callee, *arguments);
            }
            let function = match target {
                Target::Direct(function) => function,
                Target::Indirect(_, function) => function,
            };
            if function >= unit.signatures.len() {
                return Err(error("Not a function", span));
            }
            if arguments.len() != unit.signatures[function].params.len() {
                return Err(error("Wrong number of arguments", span));
            }
            let return_type = unit.signatures[function].return_type;
            let params = copy_types(&unit.signatures[function].params);
            lower_arguments(unit, f, arguments, 0, &params, span)?;
            let value = match target {
                Target::Direct(function) => f.emit(
                    Instruction::Call { function, arguments: arguments.len() },
                ),
                Target::Indirect(callee, signature) => f.emit(
                    Instruction::CallIndirect { callee, signature, arguments: arguments.len() },
                ),
            };
            Ok(Typed { value, value_type: ValueType::Data(return_type) })
        },
        _ => Err(error("Not a call", span)),
    }
}

/// Whether a type is one that a parameter can have.
fn parameter_supported(t: Type) -> (r: bool)
    ensures
        r == supported_parameter(t),
{
    matches!(t, Type::Int | Type::Float | Type::Bool)
}

/// Whether every type of a parameter list is supported.
fn parameters_supported(params: &Parameters) -> (r: bool)
    ensures
        r == supported_parameters(params@),
{
    let mut i: usize = 0;
    while i < params.params.len()
        invariant
            i <= params.params.len(),
            forall|k: int| 0 <= k < i ==> supported_parameter(#[trigger] params@[k].param_type),
        decreases params.params.len() - i,
    {
        if !parameter_supported(params.params[i].param_type) {
            assert(!supported_parameter(params@[i as int].param_type));
            return false;
        }
        i += 1;
    }
    true
}

/// The signature of a parameter list and a return type.
fn make_signature(params: &Parameters, return_type: Type) -> (r: FunctionSignature)
    ensures
        r@ == signature_of(params@, return_type),
{
    let mut types: Vec<Type> = Vec::new();
    let mut i: usize = 0;
    while i < params.params.len()
        invariant
            i <= params.params.len(),
            types@ == parameter_types(params@).take(i as int),
        decreases params.params.len() - i,
    {
        types.push(params.params[i].param_type);
        i += 1;
        assert(types@ =~= parameter_types(params@).take(i as int));
    }
    assert(types@ =~= parameter_types(params@));
    FunctionSignature { params: types, return_type }
}

/// The builder at the entry of a function.
fn enter_function(params: &Parameters, return_type: Type) -> (f: FunctionBuilder)
    ensures
        f@ == entry(params@, return_type),
{
    let mut f = FunctionBuilder::new(return_type);
    f.enter_scope();
    let ghost f0 = f@;
    let mut i: usize = 0;
    while i < params.params.len()
        invariant
            i <= params.params.len(),
            bound_parameters(f0, params@, 0) == bound_parameters(f@, params@, i as int),
        decreases params.params.len() - i,
    {
        let value_type = ValueType::Data(params.params[i].param_type);
        let index = f.add_slot(value_type);
        f.define(params.params[i].ident.clone(), Slot { index, value_type });
        i += 1;
    }
    f
}

/// A function literal.
fn lower_literal(unit: &mut UnitBuilder, f: &mut FunctionBuilder, e: &Expression, span: Span) -> (r:
    CompileResult<Typed>)
    ensures
        outcome(r, final(unit)@, final(f)@) == lowered_literal(
            State { unit: old(unit)@, function: old(f)@ },
            e@,
            span,
        ),
    decreases e, 1int,
{
    proof {
        unfold::lemma_lowered_literal(State { unit: unit@, function: f@ }, e@, span);
    }
    match e {
        Expression::Function { params, return_type, body } => {
            let routine = lower_routine(unit, String::new(), params, *return_type, body, span)?;
            let function = unit.signatures.len();
            let signature = copy_signature(&routine.signature);
            proof {
                lemma_parameters_view(*params);
                lemma_push_signature(unit.signatures@, signature);
                lemma_push_routine(unit.lifted@, routine);
            }
            unit.signatures.push(signature);
            unit.lifted.push(routine);
            let value = f.emit(Instruction::FunctionRef { function });
            Ok(Typed { value, value_type: ValueType::Function(function) })
        },
        _ => Err(error("Not a function", span)),
    }
}

/// A function, named or literal, as a routine.
fn lower_routine(
    unit: &mut UnitBuilder,
    name: String,
    params: &Parameters,
    return_type: Type,
    body: &Block,
    span: Span,
) -> (r: CompileResult<Routine>)
    ensures
        match r {
            Ok(routine) => lowered_routine(old(unit)@, name@, params@, return_type, body@, span)
                == Ok::<(Unit, crate::compiler::ir::SpecRoutine), SpecCompileError>(
                (final(unit)@, routine@),
            ),
            Err(e) => lowered_routine(old(unit)@, name@, params@, return_type, body@, span) == Err::<
                (Unit, crate::compiler::ir::SpecRoutine),
                SpecCompileError,
            >(e@),
        },
    decreases body, 2int,
{
    proof {
        unfold::lemma_lowered_routine(unit@, name@, params@, return_type, body@, span);
    }
    if !parameters_supported(params) || matches!(return_type, Type::String) {
        return Err(error("Unsupported type", span));
    }
    let mut f = enter_function(params, return_type);
    lower_block(unit, &mut f, body)?;
    let last = f.current_block();
    if matches!(return_type, Type::Void | Type::Null) {
        f.terminate(Terminator::Return { value: None }, last);
    } else {
        f.terminate(Terminator::Trap, last);
    }
    Ok(f.finish(name, make_signature(params, return_type)))
}

/// A block.
fn lower_block(unit: &mut UnitBuilder, f: &mut FunctionBuilder, block: &Block) -> (r:
    CompileResult<()>)
    ensures
        outcome(r, final(unit)@, final(f)@) == lowered_block(
            State { unit: old(unit)@, function: old(f)@ },
            block@,
        ),
    decreases block, 1int,
{
    let ghost initial = State { unit: unit@, function: f@ };
    proof {
        unfold::lemma_lowered_block(initial, block@);
        lemma_block_view(*block);
    }
    f.enter_scope();
    let ghost s0 = State { unit: unit@, function: f@ };
    let ghost views = statements_view(block.statements@);
    let mut i: usize = 0;
    while i < block.statements.len()
        invariant
            i <= block.statements.len(),
            views == statements_view(block.statements@),
            s0 == initial.enter_scope(),
            initial == (State { unit: old(unit)@, function: old(f)@ }),
            lowered_statements(s0, views, 0) == lowered_statements(
                State { unit: unit@, function: f@ },
                views,
                i as int,
            ),
        decreases block.statements.len() - i,
    {
        proof {
            unfold::lemma_lowered_block(initial, block@);
            lemma_block_view(*block);
            unfold::lemma_lowered_statements(
                State { unit: unit@, function: f@ },
                views,
                i as int,
            );
            assert(views[i as int] == block.statements[i as int]@);
        }
        lower_statement(unit, f, &block.statements[i])?;
        i += 1;
    }
    proof {
        unfold::lemma_lowered_statements(State { unit: unit@, function: f@ }, views, i as int);
    }
    f.exit_scope();
    Ok(())
}

/// A statement.
fn lower_statement(unit: &mut UnitBuilder, f: &mut FunctionBuilder, statement: &Statement) -> (r:
    CompileResult<()>)
    ensures
        outcome(r, final(unit)@, final(f)@) == lowered_statement(
            State { unit: old(unit)@, function: old(f)@ },
            statement@,
        ),
    decreases statement, 1int,
{
    proof {
        unfold::lemma_lowered_statement(State { unit: unit@, function: f@ }, statement@);
    }
    match statement {
        Statement::VariableDeclaration { .. } => lower_declaration(unit, f, statement),
        Statement::Assign { .. } => lower_assignment(unit, f, statement),
        Statement::Return { .. } => lower_return(unit, f, statement),
        Statement::Block { block, .. } => lower_block(unit, f, block),
        Statement::If { .. } => lower_if(unit, f, statement),
        Statement::While { .. } => lower_while(unit, f, statement),
        Statement::Expression { expression, span } => {
            lower_expression(unit, f, expression, *span)?;
            Ok(())
        },
        Statement::DoUntil { .. } => lower_do_until(unit, f, statement),
        Statement::For { .. } => lower_for(unit, f, statement),
    }
}

/// A variable declaration.
fn lower_declaration(unit: &mut UnitBuilder, f: &mut FunctionBuilder, statement: &Statement) -> (r:
    CompileResult<()>)
    ensures
        outcome(r, final(unit)@, final(f)@) == lowered_declaration(
            State { unit: old(unit)@, function: old(f)@ },
            statement@,
        ),
    decreases statement, 0int,
{
    proof {
        unfold::lemma_lowered_declaration(State { unit: unit@, function: f@ }, statement@);
    }
    match statement {
        Statement::VariableDeclaration { ident, var_type, value, span } => {
            let v = lower_expression(unit, f, value, *span)?;
            match var_type {
                Some(t) => {
                    if v.value_type != ValueType::Data(*t) {
                        return Err(error("Mismatched types", *span));
                    }
                },
                None => {},
            }
            let index = f.add_slot(v.value_type);
            f.define(ident.clone(), Slot { index, value_type: v.value_type });
            f.emit(Instruction::Store { slot: index, value: v.value });
            Ok(())
        },
        _ => Err(error("Not a declaration", Span { start: 0, end: 0 })),
    }
}

impl UnitBuilder {
    /// Whether two signatures of the unit are equal.
    fn same_signature(&self, i: usize, j: usize) -> (r: bool)
        ensures
            r == (i < self@.signatures.len() && j < self@.signatures.len() && self@.signatures[i as int]
                == self@.signatures[j as int]),
    {
        if i >= self.signatures.len() || j >= self.signatures.len() {
            return false;
        }
        let a = &self.signatures[i];
        let b = &self.signatures[j];
        assert(self@.signatures[i as int] == a@ && self@.signatures[j as int] == b@);
        if a.return_type != b.return_type || a.params.len() != b.params.len() {
            assert(a@.params.len() != b@.params.len() ==> a@ != b@);
            return false;
        }
        let mut k: usize = 0;
        while k < a.params.len()
            invariant
                k <= a.params.len(),
                a.params.len() == b.params.len(),
                forall|n: int| 0 <= n < k ==> a.params@[n] == b.params@[n],
                self@.signatures[i as int] == a@ && self@.signatures[j as int] == b@,
            decreases a.params.len() - k,
        {
            if a.params[k] != b.params[k] {
                assert(a@.params[k as int] != b@.params[k as int]);
                return false;
            }
            k += 1;
        }
        assert(a@.params =~= b@.params);
        true
    }

    /// Whether two value types are the same.
    fn same_type(&self, a: ValueType, b: ValueType) -> (r: bool)
        ensures
            r == same_type(self@, a, b),
    {
        match (a, b) {
            (ValueType::Data(x), ValueType::Data(y)) => x == y,
            (ValueType::Function(i), ValueType::Function(j)) => self.same_signature(i, j),
            _ => false,
        }
    }
}

/// An assignment.
fn lower_assignment(unit: &mut UnitBuilder, f: &mut FunctionBuilder, statement: &Statement) -> (r:
    CompileResult<()>)
    ensures
        outcome(r, final(unit)@, final(f)@) == lowered_assignment(
            State { unit: old(unit)@, function: old(f)@ },
            statement@,
        ),
    decreases statement, 0int,
{
    proof {
        unfold::lemma_lowered_assignment(State { unit: unit@, function: f@ }, statement@);
    }
    match statement {
        Statement::Assign { ident, value, span } => match f.lookup(ident) {
            None => Err(unknown_identifier(ident, *span)),
            Some(slot) => {
                let v = lower_expression(unit, f, value, *span)?;
                if !unit.same_type(slot.value_type, v.value_type) {
                    return Err(error("Mismatched types", *span));
                }
                f.emit(Instruction::Store { slot: slot.index, value: v.value });
                Ok(())
            },
        },
        _ => Err(error("Not an assignment", Span { start: 0, end: 0 })),
    }
}

/// The blocks after a return.
fn finish_return(unit: &UnitBuilder, f: &mut FunctionBuilder, value: Option<usize>)
    ensures
        (State { unit: unit@, function: final(f)@ }) == returned(
            State { unit: unit@, function: old(f)@ },
            value,
        ),
{
    let next = f.add_block();
    f.terminate(Terminator::Return { value }, next);
}

/// A return.
fn lower_return(unit: &mut UnitBuilder, f: &mut FunctionBuilder, statement: &Statement) -> (r:
    CompileResult<()>)
    ensures
        outcome(r, final(unit)@, final(f)@) == lowered_return(
            State { unit: old(unit)@, function: old(f)@ },
            statement@,
        ),
    decreases statement, 0int,
{
    proof {
        unfold::lemma_lowered_return(State { unit: unit@, function: f@ }, statement@);
    }
    match statement {
        Statement::Return { value: Some(e), span } => {
            let v = lower_expression(unit, f, e, *span)?;
            let return_type = f.return_type();
            if v.value_type != ValueType::Data(return_type) {
                return Err(error("Mismatched return type", *span));
            }
            if matches!(return_type, Type::Void | Type::Null) {
                finish_return(unit, f, None);
            } else {
                finish_return(unit, f, Some(v.value));
            }
            Ok(())
        },
        Statement::Return { value: None, span } => {
            if !matches!(f.return_type(), Type::Void | Type::Null) {
                return Err(error("Missing return value", *span));
            }
            finish_return(unit, f, None);
            Ok(())
        },
        _ => Err(error("Not a return", Span { start: 0, end: 0 })),
    }
}

/// A condition.
fn lower_condition(unit: &mut UnitBuilder, f: &mut FunctionBuilder, e: &Expression, span: Span) -> (r:
    CompileResult<usize>)
    ensures
        outcome(r, final(unit)@, final(f)@) == lowered_condition(
            State { unit: old(unit)@, function: old(f)@ },
            e@,
            span,
        ),
    decreases e, 3int,
{
    proof {
        unfold::lemma_lowered_condition(State { unit: unit@, function: f@ }, e@, span);
    }
    let c = lower_expression(unit, f, e, span)?;
    if c.value_type != ValueType::Data(Type::Bool) {
        return Err(error("Condition is not a bool", span));
    }
    Ok(c.value)
}

/// An if statement.
fn lower_if(unit: &mut UnitBuilder, f: &mut FunctionBuilder, statement: &Statement) -> (r:
    CompileResult<()>)
    ensures
        outcome(r, final(unit)@, final(f)@) == lowered_if(
            State { unit: old(unit)@, function: old(f)@ },
            statement@,
        ),
    decreases statement, 0int,
{
    proof {
        unfold::lemma_lowered_if(State { unit: unit@, function: f@ }, statement@);
    }
    match statement {
        Statement::If { condition, then_branch, else_branch, span } => {
            let c = lower_condition(unit, f, condition, *span)?;
            proof {
                f.lemma_bounded();
            }
            let then_block = f.add_block();
            proof {
                f.lemma_bounded();
            }
            let other = f.add_block();
            match else_branch {
                None => {
                    f.terminate(
                        Terminator::Branch {
                            condition: c,
                            then_target: then_block,
                            else_target: other,
                        },
                        then_block,
                    );
                    lower_statement(unit, f, then_branch)?;
                    f.terminate(Terminator::Jump { target: other }, other);
                    Ok(())
                },
                Some(else_statement) => {
                    proof {
                        f.lemma_bounded();
                    }
                    let continuation = f.add_block();
                    f.terminate(
                        Terminator::Branch {
                            condition: c,
                            then_target: then_block,
                            else_target: other,
                        },
                        then_block,
                    );
                    lower_statement(unit, f, then_branch)?;
                    f.terminate(Terminator::Jump { target: continuation }, other);
                    lower_statement(unit, f, else_statement)?;
                    f.terminate(Terminator::Jump { target: continuation }, continuation);
                    Ok(())
                },
            }
        },
        _ => Err(error("Not an if statement", Span { start: 0, end: 0 })),
    }
}

/// The blocks of a loop, and the jump into its header.  Returns the header.
fn enter_loop(unit: &UnitBuilder, f: &mut FunctionBuilder) -> (header: usize)
    ensures
        (State { unit: unit@, function: final(f)@ }) == loop_entry(
            State { unit: unit@, function: old(f)@ },
        ),
        header == old(f)@.next_block(),
        header + 2 <= usize::MAX,
{
    let header = f.add_block();
    f.add_block();
    f.add_block();
    proof {
        f.lemma_bounded();
    }
    f.terminate(Terminator::Jump { target: header }, header);
    header
}

/// The branch at the end of a loop's header.
fn branch_loop(unit: &UnitBuilder, f: &mut FunctionBuilder, header: usize, c: usize)
    requires
        header + 2 <= usize::MAX,
    ensures
        (State { unit: unit@, function: final(f)@ }) == loop_branch(
            State { unit: unit@, function: old(f)@ },
            header,
            c,
        ),
{
    f.terminate(
        Terminator::Branch { condition: c, then_target: header + 1, else_target: header + 2 },
        header + 1,
    );
}

/// The jump back at the end of a loop's body.
fn close_loop(unit: &UnitBuilder, f: &mut FunctionBuilder, header: usize)
    requires
        header + 2 <= usize::MAX,
    ensures
        (State { unit: unit@, function: final(f)@ }) == loop_back(
            State { unit: unit@, function: old(f)@ },
            header,
        ),
{
    f.terminate(Terminator::Jump { target: header }, header + 2);
}

/// A while statement.
fn lower_while(unit: &mut UnitBuilder, f: &mut FunctionBuilder, statement: &Statement) -> (r:
    CompileResult<()>)
    ensures
        outcome(r, final(unit)@, final(f)@) == lowered_while(
            State { unit: old(unit)@, function: old(f)@ },
            statement@,
        ),
    decreases statement, 0int,
{
    proof {
        unfold::lemma_lowered_while(State { unit: unit@, function: f@ }, statement@);
    }
    match statement {
        Statement::While { condition, body, span } => {
            let header = enter_loop(unit, f);
            let c = lower_condition(unit, f, condition, *span)?;
            branch_loop(unit, f, header, c);
            lower_block(unit, f, body)?;
            close_loop(unit, f, header);
            Ok(())
        },
        _ => Err(error("Not a while statement", Span { start: 0, end: 0 })),
    }
}

/// A do-until statement.
fn lower_do_until(unit: &mut UnitBuilder, f: &mut FunctionBuilder, statement: &Statement) -> (r:
    CompileResult<()>)
    ensures
        outcome(r, final(unit)@, final(f)@) == lowered_do_until(
            State { unit: old(unit)@, function: old(f)@ },
            statement@,
        ),
    decreases statement, 0int,
{
    proof {
        unfold::lemma_lowered_do_until(State { unit: unit@, function: f@ }, statement@);
        f.lemma_bounded();
    }
    match statement {
        Statement::DoUntil { condition, body, span } => {
            let body_block = f.add_block();
            proof {
                f.lemma_bounded();
            }
            let exit = f.add_block();
            f.terminate(Terminator::Jump { target: body_block }, body_block);
            lower_statement(unit, f, body)?;
            let c = lower_condition(unit, f, condition, *span)?;
            f.terminate(
                Terminator::Branch { condition: c, then_target: exit, else_target: body_block },
                exit,
            );
            Ok(())
        },
        _ => Err(error("Not a do-until statement", Span { start: 0, end: 0 })),
    }
}

/// A for statement.
fn lower_for(unit: &mut UnitBuilder, f: &mut FunctionBuilder, statement: &Statement) -> (r:
    CompileResult<()>)
    ensures
        outcome(r, final(unit)@, final(f)@) == lowered_for(
            State { unit: old(unit)@, function: old(f)@ },
            statement@,
        ),
    decreases statement, 0int,
{
    proof {
        unfold::lemma_lowered_for(State { unit: unit@, function: f@ }, statement@);
    }
    match statement {
        Statement::For { init, condition, increment, body, span } => {
            f.enter_scope();
            lower_statement(unit, f, init)?;
            let header = enter_loop(unit, f);
            let c = lower_condition(unit, f, condition, *span)?;
            branch_loop(unit, f, header, c);
            f.enter_scope();
            lower_block(unit, f, body)?;
            lower_statement(unit, f, increment)?;
            f.exit_scope();
            close_loop(unit, f, header);
            f.exit_scope();
            Ok(())
        },
        _ => Err(error("Not a for statement", Span { start: 0, end: 0 })),
    }
}

/// The mathematical value of what a lowering of a program returns.
pub open spec fn lowered(r: CompileResult<Module>) -> Result<
    crate::compiler::ir::SpecModule,
    SpecCompileError,
> {
    match r {
        Ok(m) => Ok(m@),
        Err(e) => Err(e@),
    }
}

/// The names of the functions of a program.
fn collect_names(program: &Program) -> (names: Vec<String>)
    ensures
        texts(names@) == function_names(program@.functions),
{
    let mut names: Vec<String> = Vec::new();
    let mut i: usize = 0;
    proof {
        lemma_program_view(*program);
    }
    while i < program.functions.len()
        invariant
            i <= program.functions.len(),
            program@.functions.len() == program.functions.len(),
            forall|k: int|
                0 <= k < program.functions.len() ==> #[trigger] program@.functions[k]
                    == program.functions[k]@,
            texts(names@) == function_names(program@.functions).take(i as int),
        decreases program.functions.len() - i,
    {
        let name = program.functions[i].ident.clone();
        proof {
            lemma_push_text(names@, name);
        }
        names.push(name);
        i += 1;
        assert(texts(names@) =~= function_names(program@.functions).take(i as int));
    }
    assert(texts(names@) =~= function_names(program@.functions));
    names
}

/// The signatures of the functions of a program.
fn collect_signatures(program: &Program) -> (signatures: Vec<FunctionSignature>)
    ensures
        signatures_view(signatures@) == function_signatures(program@.functions),
{
    let mut signatures: Vec<FunctionSignature> = Vec::new();
    let mut i: usize = 0;
    proof {
        lemma_program_view(*program);
    }
    while i < program.functions.len()
        invariant
            i <= program.functions.len(),
            program@.functions.len() == program.functions.len(),
            forall|k: int|
                0 <= k < program.functions.len() ==> #[trigger] program@.functions[k]
                    == program.functions[k]@,
            signatures_view(signatures@) == function_signatures(program@.functions).take(i as int),
        decreases program.functions.len() - i,
    {
        let signature = make_signature(
            &program.functions[i].params,
            program.functions[i].return_type,
        );
        proof {
            lemma_push_signature(signatures@, signature);
        }
        signatures.push(signature);
        i += 1;
        assert(signatures_view(signatures@) =~= function_signatures(program@.functions).take(
            i as int,
        ));
    }
    assert(signatures_view(signatures@) =~= function_signatures(program@.functions));
    signatures
}

impl UnitBuilder {
    /// The index of the first function whose name an earlier function has.
    fn duplicate(&self) -> (r: Option<usize>)
        ensures
            match r {
                Some(i) => first_duplicate(self@.names, 0) == Some(i as int) && i
                    < self.names.len(),
                None => first_duplicate(self@.names, 0) is None,
            },
    {
        let mut i: usize = 0;
        while i < self.names.len()
            invariant
                i <= self.names.len(),
                first_duplicate(self@.names, 0) == first_duplicate(self@.names, i as int),
            decreases self.names.len() - i,
        {
            match self.find(&self.names[i]) {
                Some(k) => {
                    if k != i {
                        return Some(i);
                    }
                },
                None => {
                    return Some(i);
                },
            }
            i += 1;
        }
        None
    }
}

/// Lowers a program to a module.
///
/// Every function is declared, with its signature, before any body is
/// lowered, so that a body may call any function of the program.  Two
/// functions of one name are a module error.  The functions are then lowered
/// in source order; the first error ends the lowering, and a module comes
/// out only if every function lowers.  The module that comes out is well
/// formed.
pub fn lower_program(program: &Program) -> (r: CompileResult<Module>)
    ensures
        lowered(r) == lowered_program(program@),
        r matches Ok(module) ==> module@.wf(),
{
    proof {
        lemma_program_view(*program);
        lemma_push_routine(Seq::empty(), arbitrary());
    }
    let mut unit = UnitBuilder {
        names: collect_names(program),
        signatures: collect_signatures(program),
        lifted: Vec::new(),
    };
    assert(unit@ == declared(program@));
    match unit.duplicate() {
        Some(i) => {
            let mut message = String::from_str("Duplicate function: ");
            message.append(unit.names[i].as_str());
            assert(unit@.names[i as int] == program@.functions[i as int].ident);
            return Err(CompileError::ModuleError(message));
        },
        None => {},
    }
    let mut routines: Vec<Routine> = Vec::new();
    let ghost views = program@.functions;
    let mut i: usize = 0;
    while i < program.functions.len()
        invariant
            i <= program.functions.len(),
            views == program@.functions,
            views.len() == program.functions.len(),
            forall|k: int| 0 <= k < program.functions.len() ==> #[trigger] views[k]
                == program.functions[k]@,
            first_duplicate(function_names(views), 0) is None,
            lowered_functions(declared(program@), views, 0, Seq::empty()) == lowered_functions(
                unit@,
                views,
                i as int,
                routines_view(routines@),
            ),
        decreases program.functions.len() - i,
    {
        reveal(lowered_functions);
        let function = &program.functions[i];
        let routine = lower_routine(
            &mut unit,
            function.ident.clone(),
            &function.params,
            function.return_type,
            &function.body,
            function.span,
        )?;
        proof {
            lemma_push_routine(routines@, routine);
        }
        routines.push(routine);
        i += 1;
    }
    proof {
        reveal(lowered_functions);
    }
    let ghost declared_routines = routines_view(routines@);
    let ghost lifted = unit@.lifted;
    let mut rest = unit.lifted;
    routines.append(&mut rest);
    let module = Module { routines, declared: program.functions.len() };
    assert(module@.routines =~= declared_routines + lifted);
    proof {
        assert forall|r: int| 0 <= r < module@.routines.len() implies routine_bounded(
            #[trigger] module@.routines[r],
        ) by {
            let routine = module.routines[r];
            assert(module@.routines[r] == routine@);
            assert(routine.code@.len() == routine.code.len());
            assert(routine.blocks@.len() == routine.blocks.len());
            assert(routine.slots@.len() == routine.slots.len());
            assert(routine.floats@.len() == routine.floats.len());
        }
        assert(module@.routines.len() == module.routines.len());
        lemma_program_wf(program@);
    }
    Ok(module)
}

} // verus!
