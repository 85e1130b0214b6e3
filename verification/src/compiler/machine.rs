//! What a module means: an abstract machine that runs routines.
//!
//! The machine is a stack of frames, one per call that is under way.  A step
//! executes one instruction or one terminator of the topmost frame.  Integer
//! arithmetic wraps, as it does in native code; division traps on a zero
//! divisor and on overflow.  The machine has no floating point: an
//! instruction that needs it stops the run.

use super::ir::{Instruction, Operation, SpecModule, SpecRoutine, Terminator, UnaryOperation};
use crate::ast::Type;
use vstd::prelude::*;

verus! {

/// A value at run time.
#[derive(Debug, Clone, Copy, PartialEq, Eq, Structural)]
pub enum Value {
    Int(i64),
    Bool(bool),
    Null,
    /// The routine of that index.
    Function(usize),
}

/// Why a run ended without a value.
#[derive(Debug, Clone, Copy, PartialEq, Eq, Structural)]
pub enum Trap {
    /// The run took more steps than it was given.
    OutOfFuel,
    /// A division by zero, or the division of the least integer by -1.
    Division,
    /// Control arrived at the end of a function that owes a value.
    MissingReturn,
    /// An instruction needs floating point.
    FloatingPoint,
    /// The module, or the call into it, is not well formed.
    Malformed,
}

/// The state of one call that is under way.
pub struct SpecFrame {
    /// The routine that runs.
    pub function: usize,
    /// The block that runs.
    pub block: usize,
    /// The index in `code` of the next instruction.
    pub next: usize,
    /// The value of every instruction that was executed.
    pub values: Seq<Option<Value>>,
    /// The content of every slot that was stored to.
    pub slots: Seq<Option<Value>>,
    /// The arguments handed over for calls that are still to come.
    pub arguments: Seq<Value>,
}

/// What an instruction does to its frame.
pub enum Effect {
    /// It computes a value.
    Define(Value),
    /// It puts a value into a slot.
    Store(usize, Value),
    /// It hands a value to the next call.
    Argument(Value),
    /// It calls a routine with so many arguments.
    Call(usize, usize),
    /// It stops the run.
    Stop(Trap),
}

/// What a terminator does to its frame.
pub enum Exit {
    /// Control goes on at a block.
    Goto(usize),
    /// The call returns a value.
    Return(Value),
    /// It stops the run.
    Stop(Trap),
}

/// What a step leaves behind.
pub enum Progress {
    /// The run goes on with these frames.
    Running(Seq<SpecFrame>),
    /// The outermost call returned.
    Finished(Value),
    /// The run stopped.
    Stopped(Trap),
}

/// The value of an operand: of an instruction that was executed.
pub open spec fn operand(frame: SpecFrame, value: usize) -> Option<Value> {
    if value < frame.values.len() {
        frame.values[value as int]
    } else {
        None
    }
}

/// An operation on two integers.
pub open spec fn compute_int(operation: Operation, a: i64, b: i64) -> Effect {
    match operation {
        Operation::Add => Effect::Define(Value::Int(a.wrapping_add(b))),
        Operation::Subtract => Effect::Define(Value::Int(a.wrapping_sub(b))),
        Operation::Multiply => Effect::Define(Value::Int(a.wrapping_mul(b))),
        Operation::Divide => match a.checked_div(b) {
            Some(q) => Effect::Define(Value::Int(q)),
            None => Effect::Stop(Trap::Division),
        },
        Operation::Equal => Effect::Define(Value::Bool(a == b)),
        Operation::NotEqual => Effect::Define(Value::Bool(a != b)),
        Operation::Less => Effect::Define(Value::Bool(a < b)),
        Operation::LessEqual => Effect::Define(Value::Bool(a <= b)),
        Operation::Greater => Effect::Define(Value::Bool(a > b)),
        Operation::GreaterEqual => Effect::Define(Value::Bool(a >= b)),
    }
}

/// An operation on two values of type `operand_type`.
pub open spec fn compute(
    operation: Operation,
    operand_type: Type,
    left: Option<Value>,
    right: Option<Value>,
) -> Effect {
    match (operand_type, left, right) {
        (Type::Int, Some(Value::Int(a)), Some(Value::Int(b))) => compute_int(operation, a, b),
        (Type::Bool, Some(Value::Bool(a)), Some(Value::Bool(b))) => match operation {
            Operation::Equal => Effect::Define(Value::Bool(a == b)),
            Operation::NotEqual => Effect::Define(Value::Bool(a != b)),
            _ => Effect::Stop(Trap::Malformed),
        },
        (Type::Float, _, _) => Effect::Stop(Trap::FloatingPoint),
        _ => Effect::Stop(Trap::Malformed),
    }
}

/// An operation on one value of type `operand_type`.
pub open spec fn compute_unary(
    operation: UnaryOperation,
    operand_type: Type,
    value: Option<Value>,
) -> Effect {
    match (operation, operand_type, value) {
        (UnaryOperation::Negate, Type::Int, Some(Value::Int(a))) => Effect::Define(
            Value::Int(0i64.wrapping_sub(a)),
        ),
        (UnaryOperation::Not, Type::Bool, Some(Value::Bool(a))) => Effect::Define(Value::Bool(!a)),
        (_, Type::Float, _) => Effect::Stop(Trap::FloatingPoint),
        _ => Effect::Stop(Trap::Malformed),
    }
}

/// The effect `Define`, `Store` or `Argument` on a value that must be there.
pub open spec fn with_value(value: Option<Value>, effect: spec_fn(Value) -> Effect) -> Effect {
    match value {
        Some(v) => effect(v),
        None => Effect::Stop(Trap::Malformed),
    }
}

/// What `instruction` does in `frame`.
#[verifier::opaque]
pub open spec fn effect_of(frame: SpecFrame, instruction: Instruction) -> Effect {
    match instruction {
        Instruction::IntConst { value } => Effect::Define(Value::Int(value)),
        Instruction::FloatConst { .. } => Effect::Stop(Trap::FloatingPoint),
        Instruction::BoolConst { value } => Effect::Define(Value::Bool(value)),
        Instruction::NullConst => Effect::Define(Value::Null),
        Instruction::FunctionRef { function } => Effect::Define(Value::Function(function)),
        Instruction::Load { slot } => if slot < frame.slots.len() {
            with_value(frame.slots[slot as int], |v: Value| Effect::Define(v))
        } else {
            Effect::Stop(Trap::Malformed)
        },
        Instruction::Store { slot, value } => with_value(
            operand(frame, value),
            |v: Value| Effect::Store(slot, v),
        ),
        Instruction::Binary { operation, operand_type, left, right } => compute(
            operation,
            operand_type,
            operand(frame, left),
            operand(frame, right),
        ),
        Instruction::Unary { operation, operand_type, operand: value } => compute_unary(
            operation,
            operand_type,
            operand(frame, value),
        ),
        Instruction::Argument { value } => with_value(
            operand(frame, value),
            |v: Value| Effect::Argument(v),
        ),
        Instruction::Call { function, arguments } => Effect::Call(function, arguments),
        Instruction::CallIndirect { callee, arguments, .. } => match operand(frame, callee) {
            Some(Value::Function(function)) => Effect::Call(function, arguments),
            _ => Effect::Stop(Trap::Malformed),
        },
    }
}

/// What `terminator` does in `frame`.
#[verifier::opaque]
pub open spec fn exit_of(frame: SpecFrame, terminator: Terminator) -> Exit {
    match terminator {
        Terminator::Jump { target } => Exit::Goto(target),
        Terminator::Branch { condition, then_target, else_target } => match operand(
            frame,
            condition,
        ) {
            Some(Value::Bool(true)) => Exit::Goto(then_target),
            Some(Value::Bool(false)) => Exit::Goto(else_target),
            _ => Exit::Stop(Trap::Malformed),
        },
        Terminator::Return { value: Some(value) } => match operand(frame, value) {
            Some(v) => Exit::Return(v),
            None => Exit::Stop(Trap::Malformed),
        },
        Terminator::Return { value: None } => Exit::Return(Value::Null),
        Terminator::Trap => Exit::Stop(Trap::MissingReturn),
    }
}

/// The frame at the entry of `routine`, called with `arguments`: the first
/// slots hold the arguments, and control is at the start of block 0.  There
/// is none where the number of arguments is not the number of parameters, or
/// the routine has too few slots or no block.
#[verifier::opaque]
pub open spec fn entered(routine: SpecRoutine, function: usize, arguments: Seq<Value>) -> Option<
    SpecFrame,
> {
    if arguments.len() != routine.signature.params.len() || arguments.len() > routine.slots.len()
        || routine.blocks.len() == 0 {
        None
    } else {
        Some(
            SpecFrame {
                function,
                block: 0,
                next: routine.blocks[0].start,
                values: Seq::new(routine.code.len(), |i: int| None),
                slots: Seq::new(
                    routine.slots.len(),
                    |i: int|
                        if i < arguments.len() {
                            Some(arguments[i])
                        } else {
                            None
                        },
                ),
                arguments: Seq::empty(),
            },
        )
    }
}

/// The frames after the topmost frame `frame`, above the frames `rest`,
/// executed the instruction `instruction`.
#[verifier::opaque]
pub open spec fn after_instruction(
    m: SpecModule,
    rest: Seq<SpecFrame>,
    frame: SpecFrame,
    instruction: Instruction,
) -> Progress {
    let next = (frame.next + 1) as usize;
    match effect_of(frame, instruction) {
        Effect::Define(v) => if frame.next < frame.values.len() {
            Progress::Running(
                rest.push(
                    SpecFrame { values: frame.values.update(frame.next as int, Some(v)), next, ..frame },
                ),
            )
        } else {
            Progress::Stopped(Trap::Malformed)
        },
        Effect::Store(slot, v) => if slot < frame.slots.len() {
            Progress::Running(
                rest.push(
                    SpecFrame { slots: frame.slots.update(slot as int, Some(v)), next, ..frame },
                ),
            )
        } else {
            Progress::Stopped(Trap::Malformed)
        },
        Effect::Argument(v) => Progress::Running(
            rest.push(SpecFrame { arguments: frame.arguments.push(v), next, ..frame }),
        ),
        Effect::Call(function, count) => if function < m.routines.len() && count
            <= frame.arguments.len() {
            match entered(
                m.routines[function as int],
                function,
                frame.arguments.subrange(
                    frame.arguments.len() - count,
                    frame.arguments.len() as int,
                ),
            ) {
                Some(callee) => Progress::Running(
                    rest.push(
                        SpecFrame {
                            arguments: frame.arguments.take(frame.arguments.len() - count),
                            ..frame
                        },
                    ).push(callee),
                ),
                None => Progress::Stopped(Trap::Malformed),
            }
        } else {
            Progress::Stopped(Trap::Malformed)
        },
        Effect::Stop(trap) => Progress::Stopped(trap),
    }
}

/// The frames after the call of the topmost frame returned `v` to the frames
/// `rest`: the value is that of the call instruction at which the caller
/// waits, and the caller goes on after it.
#[verifier::opaque]
pub open spec fn after_return(rest: Seq<SpecFrame>, v: Value) -> Progress {
    if rest.len() == 0 {
        Progress::Finished(v)
    } else if rest.last().next < rest.last().values.len() {
        Progress::Running(
            rest.drop_last().push(
                SpecFrame {
                    values: rest.last().values.update(rest.last().next as int, Some(v)),
                    next: (rest.last().next + 1) as usize,
                    ..rest.last()
                },
            ),
        )
    } else {
        Progress::Stopped(Trap::Malformed)
    }
}

/// The frames after the topmost frame `frame`, above the frames `rest`,
/// executed the terminator of its block.
#[verifier::opaque]
pub open spec fn after_terminator(
    routine: SpecRoutine,
    rest: Seq<SpecFrame>,
    frame: SpecFrame,
    terminator: Terminator,
) -> Progress {
    match exit_of(frame, terminator) {
        Exit::Goto(target) => if target < routine.blocks.len() {
            Progress::Running(
                rest.push(
                    SpecFrame { block: target, next: routine.blocks[target as int].start, ..frame },
                ),
            )
        } else {
            Progress::Stopped(Trap::Malformed)
        },
        Exit::Return(v) => after_return(rest, v),
        Exit::Stop(trap) => Progress::Stopped(trap),
    }
}

/// One step of the machine: the next instruction of the topmost frame, or,
/// at the end of its block, the block's terminator.
#[verifier::opaque]
pub open spec fn step(m: SpecModule, stack: Seq<SpecFrame>) -> Progress {
    if stack.len() == 0 {
        Progress::Stopped(Trap::Malformed)
    } else {
        let frame = stack.last();
        if frame.function >= m.routines.len() {
            Progress::Stopped(Trap::Malformed)
        } else {
            let routine = m.routines[frame.function as int];
            if frame.block >= routine.blocks.len() {
                Progress::Stopped(Trap::Malformed)
            } else if frame.next < routine.blocks[frame.block as int].end {
                if frame.next < routine.code.len() {
                    after_instruction(m, stack.drop_last(), frame, routine.code[frame.next as int])
                } else {
                    Progress::Stopped(Trap::Malformed)
                }
            } else {
                after_terminator(
                    routine,
                    stack.drop_last(),
                    frame,
                    routine.blocks[frame.block as int].terminator,
                )
            }
        }
    }
}

/// The result of a run from `stack` that may take `fuel` steps.
pub open spec fn run(m: SpecModule, stack: Seq<SpecFrame>, fuel: nat) -> Result<Value, Trap>
    decreases fuel,
{
    if fuel == 0 {
        Err(Trap::OutOfFuel)
    } else {
        match step(m, stack) {
            Progress::Running(next) => run(m, next, (fuel - 1) as nat),
            Progress::Finished(v) => Ok(v),
            Progress::Stopped(trap) => Err(trap),
        }
    }
}

/// The result of a call of the routine `function` with `arguments` that may
/// take `fuel` steps.
pub open spec fn called(m: SpecModule, function: usize, arguments: Seq<Value>, fuel: nat) -> Result<
    Value,
    Trap,
> {
    if function >= m.routines.len() {
        Err(Trap::Malformed)
    } else {
        match entered(m.routines[function as int], function, arguments) {
            Some(frame) => run(m, seq![frame], fuel),
            None => Err(Trap::Malformed),
        }
    }
}

/// More fuel never changes an answer: a run that ends within its fuel ends
/// the same way with any larger fuel.
pub proof fn lemma_fuel_is_enough(m: SpecModule, stack: Seq<SpecFrame>, fuel: nat, more: nat)
    requires
        run(m, stack, fuel) != Err::<Value, Trap>(Trap::OutOfFuel),
        fuel <= more,
    ensures
        run(m, stack, more) == run(m, stack, fuel),
    decreases fuel,
{
    if fuel > 0 {
        match step(m, stack) {
            Progress::Running(next) => {
                lemma_fuel_is_enough(m, next, (fuel - 1) as nat, (more - 1) as nat);
            },
            _ => {},
        }
    }
}

} // verus!
