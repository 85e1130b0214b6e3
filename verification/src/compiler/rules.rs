//! The lowering rules: what every program lowers to.
//!
//! The rules are functions from a state and a piece of syntax to the next
//! state, or to the first error.  The state is the unit under construction
//! and the routine under construction.  Expressions are lowered left to
//! right; every rule checks scope and types as it goes, so the first error
//! in evaluation order ends the lowering.
//!
//! A rule for one kind of syntax is an error on syntax of another kind; the
//! rules that choose among them never apply one so.

use super::builder::{Slot, SpecBuilder, Typed};
use super::ir::{
    Instruction, Operation, SpecFunctionSignature, SpecModule, SpecRoutine, Terminator,
    UnaryOperation, ValueType,
};
use crate::ast::{
    AssignOperator, BinaryOperator, SpecBlock, SpecExpression, SpecFunction, SpecParameter,
    SpecProgram, SpecStatement, Type, UnaryOperator,
};
use crate::error::{Span, SpecCompileError};
use vstd::prelude::*;

verus! {

/// The unit under construction.
pub struct Unit {
    /// The names of the program's functions, in source order.
    pub names: Seq<Seq<char>>,
    /// The signature of every routine: of the program's functions first,
    /// then of the function literals lowered so far.
    pub signatures: Seq<SpecFunctionSignature>,
    /// The function literals lowered so far.
    pub lifted: Seq<SpecRoutine>,
}

/// The state of a lowering.
pub struct State {
    pub unit: Unit,
    pub function: SpecBuilder,
}

/// The next state and a result, or the first error.
pub type Step<T> = Result<(State, T), SpecCompileError>;

impl State {
    /// With `instruction` appended to the current block.
    pub open spec fn emit(self, instruction: Instruction) -> State {
        State { function: self.function.emit(instruction), ..self }
    }

    /// The value that `instruction`, appended now, computes, with its type.
    pub open spec fn emitted(self, instruction: Instruction, value_type: ValueType) -> Step<Typed> {
        Ok((self.emit(instruction), Typed { value: self.function.next_value(), value_type }))
    }

    /// With one more block.
    pub open spec fn add_block(self) -> State {
        State { function: self.function.add_block(), ..self }
    }

    /// With the current block closed by `terminator`, and `next` current.
    pub open spec fn terminate(self, terminator: Terminator, next: usize) -> State {
        State { function: self.function.terminate(terminator, next), ..self }
    }

    /// With a scope opened.
    pub open spec fn enter_scope(self) -> State {
        State { function: self.function.enter_scope(), ..self }
    }

    /// With the innermost scope discarded.
    pub open spec fn exit_scope(self) -> State {
        State { function: self.function.exit_scope(), ..self }
    }
}

/// A semantic error.
pub open spec fn semantic(message: Seq<char>, span: Span) -> SpecCompileError {
    SpecCompileError::SemanticError(message, span)
}

/// A type that a parameter can have: one with a register class.
pub open spec fn supported_parameter(t: Type) -> bool {
    t is Int || t is Float || t is Bool
}

/// A type that a function can return: one with a register class, or none.
pub open spec fn supported_return(t: Type) -> bool {
    !(t is String)
}

/// A return type that stands for no value.
pub open spec fn returns_nothing(t: Type) -> bool {
    t is Void || t is Null
}

/// The types of a parameter list.
pub open spec fn parameter_types(params: Seq<SpecParameter>) -> Seq<Type> {
    Seq::new(params.len(), |i: int| params[i].param_type)
}

/// Whether every type of a parameter list is supported.
pub open spec fn supported_parameters(params: Seq<SpecParameter>) -> bool {
    forall|i: int| 0 <= i < params.len() ==> supported_parameter(#[trigger] params[i].param_type)
}

/// The signature of a parameter list and a return type.
pub open spec fn signature_of(params: Seq<SpecParameter>, return_type: Type) -> SpecFunctionSignature {
    SpecFunctionSignature { params: parameter_types(params), return_type }
}

/// Whether two value types are the same: the same primitive type, or
/// function types of equal signatures.
pub open spec fn same_type(unit: Unit, a: ValueType, b: ValueType) -> bool {
    match (a, b) {
        (ValueType::Data(x), ValueType::Data(y)) => x == y,
        (ValueType::Function(i), ValueType::Function(j)) => i < unit.signatures.len() && j
            < unit.signatures.len() && unit.signatures[i as int] == unit.signatures[j as int],
        _ => false,
    }
}

/// The index of the first of `names` that is `name`, at or after `from`.
pub open spec fn find_function(names: Seq<Seq<char>>, name: Seq<char>, from: int) -> Option<usize>
    decreases names.len() - from,
{
    if from < 0 || from >= names.len() {
        None
    } else if names[from] == name {
        Some(from as usize)
    } else {
        find_function(names, name, from + 1)
    }
}

/// The operation that a binary operator lowers to.  The logical operators
/// lower to control flow, and the exponent operators are reserved.
pub open spec fn operation_of(operator: BinaryOperator) -> Option<Operation> {
    match operator {
        BinaryOperator::Plus => Some(Operation::Add),
        BinaryOperator::Minus => Some(Operation::Subtract),
        BinaryOperator::Star => Some(Operation::Multiply),
        BinaryOperator::Slash => Some(Operation::Divide),
        BinaryOperator::EqualEqual => Some(Operation::Equal),
        BinaryOperator::BangEqual => Some(Operation::NotEqual),
        BinaryOperator::Greater => Some(Operation::Greater),
        BinaryOperator::GreaterEqual => Some(Operation::GreaterEqual),
        BinaryOperator::Less => Some(Operation::Less),
        BinaryOperator::LessEqual => Some(Operation::LessEqual),
        _ => None,
    }
}

/// The operation that a compound assignment applies.
pub open spec fn assign_operation(operator: AssignOperator) -> Operation {
    match operator {
        AssignOperator::PlusEqual => Operation::Add,
        AssignOperator::MinusEqual => Operation::Subtract,
        AssignOperator::StarEqual => Operation::Multiply,
        AssignOperator::SlashEqual => Operation::Divide,
    }
}

/// Whether an operation is an arithmetic one.
pub open spec fn is_arithmetic(operation: Operation) -> bool {
    operation is Add || operation is Subtract || operation is Multiply || operation is Divide
}

/// Whether an operation is defined on operands of type `t`: arithmetic and
/// ordering on numbers, equality on numbers and booleans.
pub open spec fn applies(operation: Operation, t: Type) -> bool {
    t is Int || t is Float || (t is Bool && (operation is Equal || operation is NotEqual))
}

/// The type of the result of an operation on operands of type `t`.
pub open spec fn result_type(operation: Operation, t: Type) -> Type {
    if is_arithmetic(operation) {
        t
    } else {
        Type::Bool
    }
}

/// An expression.  `span` is the span of the statement that holds it, for
/// errors.
#[verifier::opaque]
pub open spec fn lowered_expression(s: State, e: SpecExpression, span: Span) -> Step<Typed>
    decreases e, 2int,
{
    match e {
        SpecExpression::IntegerLiteral { value } => s.emitted(
            Instruction::IntConst { value },
            ValueType::Data(Type::Int),
        ),
        SpecExpression::FloatLiteral { value } => State {
            function: s.function.add_float(value),
            ..s
        }.emitted(
            Instruction::FloatConst { literal: s.function.next_float() },
            ValueType::Data(Type::Float),
        ),
        SpecExpression::StringLiteral { .. } => Err(
            semantic("String values are not supported"@, span),
        ),
        SpecExpression::BooleanLiteral { value } => s.emitted(
            Instruction::BoolConst { value },
            ValueType::Data(Type::Bool),
        ),
        SpecExpression::NullLiteral => s.emitted(
            Instruction::NullConst,
            ValueType::Data(Type::Null),
        ),
        SpecExpression::Identifier { ident } => lowered_identifier(s, ident, span),
        SpecExpression::Binary { operator, .. } => if operator is And || operator is Or {
            lowered_logical(s, e, span)
        } else {
            lowered_binary(s, e, span)
        },
        SpecExpression::Unary { .. } => lowered_unary(s, e, span),
        SpecExpression::Grouping { expression } => lowered_expression(s, *expression, span),
        SpecExpression::Function { .. } => lowered_literal(s, e, span),
        SpecExpression::Call { .. } => lowered_call(s, e, span),
        SpecExpression::Postfix { left, operator } => lowered_step(
            s,
            *left,
            operator is PlusPlus,
            false,
            span,
        ),
        SpecExpression::Prefix { operator, right } => lowered_step(
            s,
            *right,
            operator is PlusPlus,
            true,
            span,
        ),
        SpecExpression::Assign { .. } => lowered_compound(s, e, span),
    }
}

/// A name: the content of the variable that it means in the scopes, or,
/// when no variable has the name, the function of that name as a value.
#[verifier::opaque]
pub open spec fn lowered_identifier(s: State, ident: Seq<char>, span: Span) -> Step<Typed> {
    match s.function.lookup(ident) {
        Some(slot) => s.emitted(Instruction::Load { slot: slot.index }, slot.value_type),
        None => match find_function(s.unit.names, ident, 0) {
            Some(function) => s.emitted(
                Instruction::FunctionRef { function },
                ValueType::Function(function),
            ),
            None => Err(semantic("Unknown identifier: "@ + ident, span)),
        },
    }
}

/// An arithmetic or comparison operator: both operands, left first, then
/// the operation.  The operands must have one primitive type on which the
/// operation is defined.
#[verifier::opaque]
pub open spec fn lowered_binary(s: State, e: SpecExpression, span: Span) -> Step<Typed>
    decreases e, 1int,
{
    match e {
        SpecExpression::Binary { left, operator, right } => match lowered_expression(
            s,
            *left,
            span,
        ) {
            Err(e) => Err(e),
            Ok((s1, l)) => match lowered_expression(s1, *right, span) {
                Err(e) => Err(e),
                Ok((s2, r)) => finish_binary(s2, operator, l, r, span),
            },
        },
        _ => Err(semantic("Not a binary expression"@, span)),
    }
}

/// The operation of `operator` on the lowered operands `l` and `r`.
#[verifier::opaque]
pub open spec fn finish_binary(
    s: State,
    operator: BinaryOperator,
    l: Typed,
    r: Typed,
    span: Span,
) -> Step<Typed> {
    match operation_of(operator) {
        None => Err(semantic("Operator is not implemented"@, span)),
        Some(operation) => match (l.value_type, r.value_type) {
            (ValueType::Data(t), ValueType::Data(u)) => if t != u {
                Err(semantic("Mismatched types"@, span))
            } else if !applies(operation, t) {
                Err(semantic("Operator is not defined for this type"@, span))
            } else {
                s.emitted(
                    Instruction::Binary {
                        operation,
                        operand_type: t,
                        left: l.value,
                        right: r.value,
                    },
                    ValueType::Data(result_type(operation, t)),
                )
            },
            _ => Err(semantic("Operator is not defined for this type"@, span)),
        },
    }
}

/// The state after the left operand `l` of a logical operator: its value is
/// kept in a new slot, and control goes to a new block for the right operand
/// only where the left operand does not decide the result: where it is true
/// for `and`, where it is false for `or`.  Otherwise control goes straight
/// to the block where both paths meet.
pub open spec fn logical_split(s: State, l: Typed, is_or: bool) -> State {
    let slot = s.function.next_slot();
    let right_block = s.function.next_block();
    let meet = (right_block + 1) as usize;
    State { function: s.function.add_slot(ValueType::Data(Type::Bool)), ..s }.emit(
        Instruction::Store { slot, value: l.value },
    ).add_block().add_block().terminate(
        if is_or {
            Terminator::Branch { condition: l.value, then_target: meet, else_target: right_block }
        } else {
            Terminator::Branch { condition: l.value, then_target: right_block, else_target: meet }
        },
        right_block,
    )
}

/// The state after the right operand `r` of a logical operator: its value
/// replaces the kept one, and control goes on where both paths meet; there
/// the kept value is the result.
pub open spec fn logical_meet(s: State, slot: usize, meet: usize, r: Typed) -> Step<Typed> {
    s.emit(Instruction::Store { slot, value: r.value }).terminate(
        Terminator::Jump { target: meet },
        meet,
    ).emitted(Instruction::Load { slot }, ValueType::Data(Type::Bool))
}

/// `and` and `or`: both operands must be booleans; the right one is
/// evaluated only where the left one does not decide the result.
#[verifier::opaque]
pub open spec fn lowered_logical(s: State, e: SpecExpression, span: Span) -> Step<Typed>
    decreases e, 1int,
{
    match e {
        SpecExpression::Binary { left, operator, right } => match lowered_expression(
            s,
            *left,
            span,
        ) {
            Err(e) => Err(e),
            Ok((s1, l)) => if l.value_type != ValueType::Data(Type::Bool) {
                Err(semantic("Operand is not a bool"@, span))
            } else {
                match lowered_expression(logical_split(s1, l, operator is Or), *right, span) {
                    Err(e) => Err(e),
                    Ok((s2, r)) => if r.value_type != ValueType::Data(Type::Bool) {
                        Err(semantic("Operand is not a bool"@, span))
                    } else {
                        logical_meet(
                            s2,
                            s1.function.next_slot(),
                            (s1.function.next_block() + 1) as usize,
                            r,
                        )
                    },
                }
            },
        },
        _ => Err(semantic("Not a binary expression"@, span)),
    }
}

/// A unary operator: the operand, then the operation.  `-` is defined on
/// numbers, `!` on booleans.
#[verifier::opaque]
pub open spec fn lowered_unary(s: State, e: SpecExpression, span: Span) -> Step<Typed>
    decreases e, 1int,
{
    match e {
        SpecExpression::Unary { operator, right } => match lowered_expression(s, *right, span) {
            Err(e) => Err(e),
            Ok((s1, r)) => finish_unary(s1, operator, r, span),
        },
        _ => Err(semantic("Not a unary expression"@, span)),
    }
}

/// The operation of `operator` on the lowered operand `r`.
#[verifier::opaque]
pub open spec fn finish_unary(s: State, operator: UnaryOperator, r: Typed, span: Span) -> Step<
    Typed,
> {
    match (operator, r.value_type) {
        (UnaryOperator::Minus, ValueType::Data(Type::Int)) => s.emitted(
            Instruction::Unary {
                operation: UnaryOperation::Negate,
                operand_type: Type::Int,
                operand: r.value,
            },
            ValueType::Data(Type::Int),
        ),
        (UnaryOperator::Minus, ValueType::Data(Type::Float)) => s.emitted(
            Instruction::Unary {
                operation: UnaryOperation::Negate,
                operand_type: Type::Float,
                operand: r.value,
            },
            ValueType::Data(Type::Float),
        ),
        (UnaryOperator::Bang, ValueType::Data(Type::Bool)) => s.emitted(
            Instruction::Unary {
                operation: UnaryOperation::Not,
                operand_type: Type::Bool,
                operand: r.value,
            },
            ValueType::Data(Type::Bool),
        ),
        _ => Err(semantic("Operator is not defined for this type"@, span)),
    }
}

/// `++` and `--` on `target`, which must be the name of an integer variable:
/// the variable is loaded, one is added or subtracted, and the result is
/// stored.  The value is the new content for a prefix operator, the old
/// content for a postfix operator.
#[verifier::opaque]
pub open spec fn lowered_step(
    s: State,
    target: SpecExpression,
    increment: bool,
    prefix: bool,
    span: Span,
) -> Step<Typed> {
    match target {
        SpecExpression::Identifier { ident } => match s.function.lookup(ident) {
            None => Err(semantic("Unknown identifier: "@ + ident, span)),
            Some(slot) => if slot.value_type != ValueType::Data(Type::Int) {
                Err(semantic("Operator is not defined for this type"@, span))
            } else {
                let old_value = s.function.next_value();
                let one = (old_value + 1) as usize;
                let new_value = (old_value + 2) as usize;
                Ok(
                    (
                        s.emit(Instruction::Load { slot: slot.index }).emit(
                            Instruction::IntConst { value: 1 },
                        ).emit(
                            Instruction::Binary {
                                operation: if increment {
                                    Operation::Add
                                } else {
                                    Operation::Subtract
                                },
                                operand_type: Type::Int,
                                left: old_value,
                                right: one,
                            },
                        ).emit(Instruction::Store { slot: slot.index, value: new_value }),
                        Typed {
                            value: if prefix {
                                new_value
                            } else {
                                old_value
                            },
                            value_type: ValueType::Data(Type::Int),
                        },
                    ),
                )
            },
        },
        _ => Err(semantic("Invalid assignment target"@, span)),
    }
}

/// A compound assignment.  The target must be the name of a variable that
/// holds a number; it is resolved first.  Then the right operand is lowered,
/// which must have the variable's type, the variable is loaded, the
/// operation applied, and the result stored.  The value is the new content.
#[verifier::opaque]
pub open spec fn lowered_compound(s: State, e: SpecExpression, span: Span) -> Step<Typed>
    decreases e, 1int,
{
    match e {
        SpecExpression::Assign { left, operator, right } => match *left {
            SpecExpression::Identifier { ident } => match s.function.lookup(ident) {
                None => Err(semantic("Unknown identifier: "@ + ident, span)),
                Some(slot) => match lowered_expression(s, *right, span) {
                    Err(e) => Err(e),
                    Ok((s1, r)) => finish_compound(s1, slot, assign_operation(operator), r, span),
                },
            },
            _ => Err(semantic("Invalid assignment target"@, span)),
        },
        _ => Err(semantic("Not an assignment"@, span)),
    }
}

/// The compound assignment of the lowered operand `r` to the variable at
/// `slot`.
#[verifier::opaque]
pub open spec fn finish_compound(
    s: State,
    slot: Slot,
    operation: Operation,
    r: Typed,
    span: Span,
) -> Step<Typed> {
    if slot.value_type != r.value_type {
        Err(semantic("Mismatched types"@, span))
    } else if slot.value_type != ValueType::Data(Type::Int) && slot.value_type != ValueType::Data(
        Type::Float,
    ) {
        Err(semantic("Operator is not defined for this type"@, span))
    } else {
        let old_value = s.function.next_value();
        let new_value = (old_value + 1) as usize;
        Ok(
            (
                s.emit(Instruction::Load { slot: slot.index }).emit(
                    Instruction::Binary {
                        operation,
                        operand_type: slot.value_type->Data_0,
                        left: old_value,
                        right: r.value,
                    },
                ).emit(Instruction::Store { slot: slot.index, value: new_value }),
                Typed { value: new_value, value_type: slot.value_type },
            ),
        )
    }
}

/// Who a call calls: a routine of the unit, or a function value.
pub enum Callee {
    Direct { function: usize },
    Indirect { callee: usize, function: usize },
}

impl Callee {
    /// The routine that tells the callee's signature.
    pub open spec fn function(self) -> usize {
        match self {
            Callee::Direct { function } => function,
            Callee::Indirect { function, .. } => function,
        }
    }

    /// The instruction that calls, with `arguments` arguments.
    pub open spec fn instruction(self, arguments: usize) -> Instruction {
        match self {
            Callee::Direct { function } => Instruction::Call { function, arguments },
            Callee::Indirect { callee, function } => Instruction::CallIndirect {
                callee,
                signature: function,
                arguments,
            },
        }
    }
}

/// Whether `callee` names a function of the unit directly: it is a name that
/// no variable in scope has, and that a function has.
pub open spec fn names_function(s: State, callee: SpecExpression) -> bool {
    callee is Identifier && s.function.lookup(callee->ident) is None && find_function(
        s.unit.names,
        callee->ident,
        0,
    ) is Some
}

/// A call.  The callee is resolved first: a name that means a function of
/// the unit is called directly; any other callee is lowered, and must be a
/// function value.  The number of arguments must be the number of the
/// callee's parameters.  Then the arguments are lowered, left to right.  The
/// value has the callee's return type.
#[verifier::opaque]
pub open spec fn lowered_call(s: State, e: SpecExpression, span: Span) -> Step<Typed>
    decreases e, 1int,
{
    match e {
        SpecExpression::Call { callee, arguments } => if names_function(s, *callee) {
            lowered_call_of(
                s,
                Callee::Direct { function: find_function(s.unit.names, callee->ident, 0)->0 },
                e,
                span,
            )
        } else {
            match lowered_expression(s, *callee, span) {
                Err(e) => Err(e),
                Ok((s1, c)) => match c.value_type {
                    ValueType::Function(function) => lowered_call_of(
                        s1,
                        Callee::Indirect { callee: c.value, function },
                        e,
                        span,
                    ),
                    _ => Err(semantic("Not a function"@, span)),
                },
            }
        },
        _ => Err(semantic("Not a call"@, span)),
    }
}

/// The arguments of the call `e` and the call itself, once the callee is
/// known.
#[verifier::opaque]
pub open spec fn lowered_call_of(s: State, callee: Callee, e: SpecExpression, span: Span) -> Step<
    Typed,
>
    decreases e, 0int,
{
    match e {
        SpecExpression::Call { arguments, .. } => if callee.function() >= s.unit.signatures.len() {
            Err(semantic("Not a function"@, span))
        } else if arguments.len() != s.unit.signatures[callee.function() as int].params.len() {
            Err(semantic("Wrong number of arguments"@, span))
        } else {
            match lowered_arguments(
                s,
                arguments,
                0,
                s.unit.signatures[callee.function() as int].params,
                span,
            ) {
                Err(e) => Err(e),
                Ok((s1, _)) => s1.emitted(
                    callee.instruction(arguments.len() as usize),
                    ValueType::Data(s.unit.signatures[callee.function() as int].return_type),
                ),
            }
        },
        _ => Err(semantic("Not a call"@, span)),
    }
}

/// The arguments from index `i` on: each is lowered, must have the type of
/// its parameter, and is handed to the call.
#[verifier::opaque]
pub open spec fn lowered_arguments(
    s: State,
    arguments: Seq<SpecExpression>,
    i: int,
    params: Seq<Type>,
    span: Span,
) -> Step<()>
    decreases arguments, arguments.len() - i,
{
    if i < 0 || i >= arguments.len() || i >= params.len() {
        Ok((s, ()))
    } else {
        match lowered_expression(s, arguments[i], span) {
            Err(e) => Err(e),
            Ok((s1, a)) => if a.value_type != ValueType::Data(params[i]) {
                Err(semantic("Mismatched types"@, span))
            } else {
                lowered_arguments(
                    s1.emit(Instruction::Argument { value: a.value }),
                    arguments,
                    i + 1,
                    params,
                    span,
                )
            },
        }
    }
}

/// A function literal: its body is lowered to a routine of its own, which
/// sees none of the variables around the literal; the value is that
/// routine.
#[verifier::opaque]
pub open spec fn lowered_literal(s: State, e: SpecExpression, span: Span) -> Step<Typed>
    decreases e, 1int,
{
    match e {
        SpecExpression::Function { params, return_type, body } => match lowered_routine(
            s.unit,
            Seq::empty(),
            params,
            return_type,
            body,
            span,
        ) {
            Err(e) => Err(e),
            Ok((unit, routine)) => State {
                unit: Unit {
                    signatures: unit.signatures.push(routine.signature),
                    lifted: unit.lifted.push(routine),
                    ..unit
                },
                function: s.function,
            }.emitted(
                Instruction::FunctionRef { function: unit.signatures.len() as usize },
                ValueType::Function(unit.signatures.len() as usize),
            ),
        },
        _ => Err(semantic("Not a function"@, span)),
    }
}

/// The builder with a slot for every parameter from index `i` on, each bound
/// to its name.
pub open spec fn bound_parameters(f: SpecBuilder, params: Seq<SpecParameter>, i: int) -> SpecBuilder
    decreases params.len() - i,
{
    if i < 0 || i >= params.len() {
        f
    } else {
        bound_parameters(
            f.add_slot(ValueType::Data(params[i].param_type)).define(
                params[i].ident,
                Slot { index: f.next_slot(), value_type: ValueType::Data(params[i].param_type) },
            ),
            params,
            i + 1,
        )
    }
}

/// The builder at the entry of a function: one scope, which binds every
/// parameter to a slot of its own.
pub open spec fn entry(params: Seq<SpecParameter>, return_type: Type) -> SpecBuilder {
    bound_parameters(SpecBuilder::empty(return_type).enter_scope(), params, 0)
}

/// The terminator of a block that the end of a function's body falls into:
/// a return where the function returns nothing, a trap where it owes a
/// value.
pub open spec fn fall_through(return_type: Type) -> Terminator {
    if returns_nothing(return_type) {
        Terminator::Return { value: None }
    } else {
        Terminator::Trap
    }
}

/// A function, named or literal, as a routine.  Its parameter types and
/// return type must be supported; `span` is where it is reported if they are
/// not.  The body is lowered in a scope inside the scope of the parameters.
#[verifier::opaque]
pub open spec fn lowered_routine(
    unit: Unit,
    name: Seq<char>,
    params: Seq<SpecParameter>,
    return_type: Type,
    body: SpecBlock,
    span: Span,
) -> Result<(Unit, SpecRoutine), SpecCompileError>
    decreases body, 2int,
{
    if !supported_parameters(params) || !supported_return(return_type) {
        Err(semantic("Unsupported type"@, span))
    } else {
        match lowered_block(State { unit, function: entry(params, return_type) }, body) {
            Err(e) => Err(e),
            Ok((s, _)) => Ok(
                (
                    s.unit,
                    s.function.terminate(fall_through(return_type), s.function.current).routine(
                        name,
                        signature_of(params, return_type),
                    ),
                ),
            ),
        }
    }
}

/// A block: its statements in order, in a scope of their own.
#[verifier::opaque]
pub open spec fn lowered_block(s: State, block: SpecBlock) -> Step<()>
    decreases block, 1int,
{
    match lowered_statements(s.enter_scope(), block.statements, 0) {
        Err(e) => Err(e),
        Ok((s1, _)) => Ok((s1.exit_scope(), ())),
    }
}

/// The statements from index `i` on, in order.
#[verifier::opaque]
pub open spec fn lowered_statements(s: State, statements: Seq<SpecStatement>, i: int) -> Step<()>
    decreases statements, statements.len() - i,
{
    if i < 0 || i >= statements.len() {
        Ok((s, ()))
    } else {
        match lowered_statement(s, statements[i]) {
            Err(e) => Err(e),
            Ok((s1, _)) => lowered_statements(s1, statements, i + 1),
        }
    }
}

/// A statement.
#[verifier::opaque]
pub open spec fn lowered_statement(s: State, statement: SpecStatement) -> Step<()>
    decreases statement, 1int,
{
    match statement {
        SpecStatement::VariableDeclaration { .. } => lowered_declaration(s, statement),
        SpecStatement::Assign { .. } => lowered_assignment(s, statement),
        SpecStatement::Return { .. } => lowered_return(s, statement),
        SpecStatement::Block { block, .. } => lowered_block(s, *block),
        SpecStatement::If { .. } => lowered_if(s, statement),
        SpecStatement::While { .. } => lowered_while(s, statement),
        SpecStatement::Expression { expression, span } => match lowered_expression(
            s,
            expression,
            span,
        ) {
            Err(e) => Err(e),
            Ok((s1, _)) => Ok((s1, ())),
        },
        SpecStatement::DoUntil { .. } => lowered_do_until(s, statement),
        SpecStatement::For { .. } => lowered_for(s, statement),
    }
}

/// A variable declaration: the initializer is lowered first; a declared
/// type must be its type exactly; then the value is stored in a new slot,
/// which the name is bound to in the current scope.
#[verifier::opaque]
pub open spec fn lowered_declaration(s: State, statement: SpecStatement) -> Step<()>
    decreases statement, 0int,
{
    match statement {
        SpecStatement::VariableDeclaration { ident, var_type, value, span } => {
            match lowered_expression(s, value, span) {
                Err(e) => Err(e),
                Ok((s1, v)) => if var_type is Some && v.value_type != ValueType::Data(var_type->0) {
                    Err(semantic("Mismatched types"@, span))
                } else {
                    Ok(
                        (
                            State {
                                function: s1.function.add_slot(v.value_type).define(
                                    ident,
                                    Slot {
                                        index: s1.function.next_slot(),
                                        value_type: v.value_type,
                                    },
                                ),
                                ..s1
                            }.emit(
                                Instruction::Store {
                                    slot: s1.function.next_slot(),
                                    value: v.value,
                                },
                            ),
                            (),
                        ),
                    )
                },
            }
        },
        _ => Err(semantic("Not a declaration"@, Span { start: 0, end: 0 })),
    }
}

/// An assignment: the target is resolved first; then the value is lowered,
/// which must have the variable's type, and stored.
#[verifier::opaque]
pub open spec fn lowered_assignment(s: State, statement: SpecStatement) -> Step<()>
    decreases statement, 0int,
{
    match statement {
        SpecStatement::Assign { ident, value, span } => match s.function.lookup(ident) {
            None => Err(semantic("Unknown identifier: "@ + ident, span)),
            Some(slot) => match lowered_expression(s, value, span) {
                Err(e) => Err(e),
                Ok((s1, v)) => if !same_type(s1.unit, slot.value_type, v.value_type) {
                    Err(semantic("Mismatched types"@, span))
                } else {
                    Ok((s1.emit(Instruction::Store { slot: slot.index, value: v.value }), ()))
                },
            },
        },
        _ => Err(semantic("Not an assignment"@, Span { start: 0, end: 0 })),
    }
}

/// The state after a return: the current block returns, and what follows
/// goes into a new block, which nothing leads to.
pub open spec fn returned(s: State, value: Option<usize>) -> State {
    s.add_block().terminate(Terminator::Return { value }, s.function.next_block())
}

/// A return.  A value must have the function's return type; no value is
/// left out only where the function returns nothing.
#[verifier::opaque]
pub open spec fn lowered_return(s: State, statement: SpecStatement) -> Step<()>
    decreases statement, 0int,
{
    match statement {
        SpecStatement::Return { value: Some(e), span } => match lowered_expression(s, e, span) {
            Err(e) => Err(e),
            Ok((s1, v)) => if v.value_type != ValueType::Data(s1.function.return_type) {
                Err(semantic("Mismatched return type"@, span))
            } else {
                Ok(
                    (
                        returned(
                            s1,
                            if returns_nothing(s1.function.return_type) {
                                None
                            } else {
                                Some(v.value)
                            },
                        ),
                        (),
                    ),
                )
            },
        },
        SpecStatement::Return { value: None, span } => if !returns_nothing(
            s.function.return_type,
        ) {
            Err(semantic("Missing return value"@, span))
        } else {
            Ok((returned(s, None), ()))
        },
        _ => Err(semantic("Not a return"@, Span { start: 0, end: 0 })),
    }
}

/// A condition: an expression that must be a boolean.
#[verifier::opaque]
pub open spec fn lowered_condition(s: State, e: SpecExpression, span: Span) -> Step<usize>
    decreases e, 3int,
{
    match lowered_expression(s, e, span) {
        Err(e) => Err(e),
        Ok((s1, c)) => if c.value_type != ValueType::Data(Type::Bool) {
            Err(semantic("Condition is not a bool"@, span))
        } else {
            Ok((s1, c.value))
        },
    }
}

/// An if statement: the condition branches to a block for the then-branch
/// and to a block for the else-branch, or, without one, to the continuation;
/// both branches go on at the continuation.
#[verifier::opaque]
pub open spec fn lowered_if(s: State, statement: SpecStatement) -> Step<()>
    decreases statement, 0int,
{
    match statement {
        SpecStatement::If { condition, then_branch, else_branch, span } => {
            match lowered_condition(s, condition, span) {
                Err(e) => Err(e),
                Ok((s1, c)) => {
                    let then_block = s1.function.next_block();
                    let other = (then_block + 1) as usize;
                    match else_branch {
                        None => match lowered_statement(
                            s1.add_block().add_block().terminate(
                                Terminator::Branch {
                                    condition: c,
                                    then_target: then_block,
                                    else_target: other,
                                },
                                then_block,
                            ),
                            *then_branch,
                        ) {
                            Err(e) => Err(e),
                            Ok((s2, _)) => Ok(
                                (s2.terminate(Terminator::Jump { target: other }, other), ()),
                            ),
                        },
                        Some(else_statement) => {
                            let continuation = (then_block + 2) as usize;
                            match lowered_statement(
                                s1.add_block().add_block().add_block().terminate(
                                    Terminator::Branch {
                                        condition: c,
                                        then_target: then_block,
                                        else_target: other,
                                    },
                                    then_block,
                                ),
                                *then_branch,
                            ) {
                                Err(e) => Err(e),
                                Ok((s2, _)) => match lowered_statement(
                                    s2.terminate(
                                        Terminator::Jump { target: continuation },
                                        other,
                                    ),
                                    *else_statement,
                                ) {
                                    Err(e) => Err(e),
                                    Ok((s3, _)) => Ok(
                                        (
                                            s3.terminate(
                                                Terminator::Jump { target: continuation },
                                                continuation,
                                            ),
                                            (),
                                        ),
                                    ),
                                },
                            }
                        },
                    }
                },
            }
        },
        _ => Err(semantic("Not an if statement"@, Span { start: 0, end: 0 })),
    }
}

/// The state at the start of a loop: three blocks are added, for the
/// header, the body and the exit, and the current block jumps to the header,
/// which becomes current.  The header evaluates the condition before every
/// iteration.
pub open spec fn loop_entry(s: State) -> State {
    s.add_block().add_block().add_block().terminate(
        Terminator::Jump { target: s.function.next_block() },
        s.function.next_block(),
    )
}

/// The state at the start of a loop body: the header, which ends in the
/// state `s` with the condition `c`, branches to the body or to the exit.
pub open spec fn loop_branch(s: State, header: usize, c: usize) -> State {
    s.terminate(
        Terminator::Branch {
            condition: c,
            then_target: (header + 1) as usize,
            else_target: (header + 2) as usize,
        },
        (header + 1) as usize,
    )
}

/// The state after a loop body: it goes back to the header, and what
/// follows the loop goes into the exit.
pub open spec fn loop_back(s: State, header: usize) -> State {
    s.terminate(Terminator::Jump { target: header }, (header + 2) as usize)
}

/// A while statement: zero or more iterations, the condition evaluated
/// before each.
#[verifier::opaque]
pub open spec fn lowered_while(s: State, statement: SpecStatement) -> Step<()>
    decreases statement, 0int,
{
    match statement {
        SpecStatement::While { condition, body, span } => match lowered_condition(
            loop_entry(s),
            condition,
            span,
        ) {
            Err(e) => Err(e),
            Ok((s1, c)) => match lowered_block(
                loop_branch(s1, s.function.next_block(), c),
                body,
            ) {
                Err(e) => Err(e),
                Ok((s2, _)) => Ok((loop_back(s2, s.function.next_block()), ())),
            },
        },
        _ => Err(semantic("Not a while statement"@, Span { start: 0, end: 0 })),
    }
}

/// A do-until statement: the body runs once before the condition is first
/// evaluated; the loop repeats while the condition is false and ends when it
/// is true.
#[verifier::opaque]
pub open spec fn lowered_do_until(s: State, statement: SpecStatement) -> Step<()>
    decreases statement, 0int,
{
    match statement {
        SpecStatement::DoUntil { condition, body, span } => {
            let body_block = s.function.next_block();
            let exit = (body_block + 1) as usize;
            match lowered_statement(
                s.add_block().add_block().terminate(
                    Terminator::Jump { target: body_block },
                    body_block,
                ),
                *body,
            ) {
                Err(e) => Err(e),
                Ok((s1, _)) => match lowered_condition(s1, condition, span) {
                    Err(e) => Err(e),
                    Ok((s2, c)) => Ok(
                        (
                            s2.terminate(
                                Terminator::Branch {
                                    condition: c,
                                    then_target: exit,
                                    else_target: body_block,
                                },
                                exit,
                            ),
                            (),
                        ),
                    ),
                },
            }
        },
        _ => Err(semantic("Not a do-until statement"@, Span { start: 0, end: 0 })),
    }
}

/// A for statement: the init statement runs once, in a scope that holds the
/// whole loop; then a while loop whose body is the body followed by the
/// increment.
#[verifier::opaque]
pub open spec fn lowered_for(s: State, statement: SpecStatement) -> Step<()>
    decreases statement, 0int,
{
    match statement {
        SpecStatement::For { init, condition, increment, body, span } => match lowered_statement(
            s.enter_scope(),
            *init,
        ) {
            Err(e) => Err(e),
            Ok((s1, _)) => match lowered_condition(loop_entry(s1), condition, span) {
                Err(e) => Err(e),
                Ok((s2, c)) => match lowered_block(
                    loop_branch(s2, s1.function.next_block(), c).enter_scope(),
                    body,
                ) {
                    Err(e) => Err(e),
                    Ok((s3, _)) => match lowered_statement(s3, *increment) {
                        Err(e) => Err(e),
                        Ok((s4, _)) => Ok(
                            (
                                loop_back(
                                    s4.exit_scope(),
                                    s1.function.next_block(),
                                ).exit_scope(),
                                (),
                            ),
                        ),
                    },
                },
            },
        },
        _ => Err(semantic("Not a for statement"@, Span { start: 0, end: 0 })),
    }
}

/// The names of the functions of a program.
pub open spec fn function_names(functions: Seq<SpecFunction>) -> Seq<Seq<char>> {
    Seq::new(functions.len(), |i: int| functions[i].ident)
}

/// The signatures of the functions of a program.
pub open spec fn function_signatures(functions: Seq<SpecFunction>) -> Seq<SpecFunctionSignature> {
    Seq::new(functions.len(), |i: int| signature_of(functions[i].params, functions[i].return_type))
}

/// The index of the first function, at or after `i`, whose name an earlier
/// function has.
pub open spec fn first_duplicate(names: Seq<Seq<char>>, i: int) -> Option<int>
    decreases names.len() - i,
{
    if i < 0 || i >= names.len() {
        None
    } else if find_function(names, names[i], 0) != Some(i as usize) {
        Some(i)
    } else {
        first_duplicate(names, i + 1)
    }
}

/// The routines of the functions from index `i` on, in order, after the
/// routines `done`.
#[verifier::opaque]
pub open spec fn lowered_functions(
    unit: Unit,
    functions: Seq<SpecFunction>,
    i: int,
    done: Seq<SpecRoutine>,
) -> Result<(Unit, Seq<SpecRoutine>), SpecCompileError>
    decreases functions.len() - i,
{
    if i < 0 || i >= functions.len() {
        Ok((unit, done))
    } else {
        match lowered_routine(
            unit,
            functions[i].ident,
            functions[i].params,
            functions[i].return_type,
            functions[i].body,
            functions[i].span,
        ) {
            Err(e) => Err(e),
            Ok((unit1, routine)) => lowered_functions(unit1, functions, i + 1, done.push(routine)),
        }
    }
}

/// The unit at the start of the lowering of a program: every function is
/// declared, with its signature, before any body is lowered.
pub open spec fn declared(program: SpecProgram) -> Unit {
    Unit {
        names: function_names(program.functions),
        signatures: function_signatures(program.functions),
        lifted: Seq::empty(),
    }
}

/// The module that a program lowers to.  Two functions of one name are a
/// module error.  Otherwise the functions are lowered in source order, and
/// the first error ends the lowering: a module comes out only if every
/// function lowers.
pub open spec fn lowered_program(program: SpecProgram) -> Result<SpecModule, SpecCompileError> {
    match first_duplicate(function_names(program.functions), 0) {
        Some(i) => Err(
            SpecCompileError::ModuleError("Duplicate function: "@ + program.functions[i].ident),
        ),
        None => match lowered_functions(declared(program), program.functions, 0, Seq::empty()) {
            Err(e) => Err(e),
            Ok((unit, routines)) => Ok(
                SpecModule {
                    routines: routines + unit.lifted,
                    declared: program.functions.len() as usize,
                },
            ),
        },
    }
}

} // verus!
