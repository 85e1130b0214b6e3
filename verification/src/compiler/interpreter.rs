//! An interpreter for modules: the abstract machine, executed.

use super::ir::{
    FunctionSignature, Instruction, Module, Operation, Routine, Terminator, UnaryOperation,
};
use super::machine::{
    after_instruction, after_return, after_terminator, called, compute, compute_int, compute_unary,
    effect_of, entered, exit_of, operand, run, step, Effect, Exit, Progress, SpecFrame, Trap, Value,
};
use crate::ast::Type;
use vstd::prelude::*;

verus! {

/// The state of one call that is under way.
struct Frame {
    function: usize,
    block: usize,
    next: usize,
    values: Vec<Option<Value>>,
    slots: Vec<Option<Value>>,
    arguments: Vec<Value>,
}

impl View for Frame {
    type V = SpecFrame;

    closed spec fn view(&self) -> SpecFrame {
        SpecFrame {
            function: self.function,
            block: self.block,
            next: self.next,
            values: self.values@,
            slots: self.slots@,
            arguments: self.arguments@,
        }
    }
}

/// The views of a stack of frames.
spec fn frames_view(stack: Seq<Frame>) -> Seq<SpecFrame> {
    Seq::new(stack.len(), |i: int| stack[i]@)
}

proof fn lemma_push_frame(stack: Seq<Frame>, frame: Frame)
    ensures
        frames_view(stack.push(frame)) == frames_view(stack).push(frame@),
        frames_view(Seq::<Frame>::empty()) == Seq::<SpecFrame>::empty(),
{
    assert(frames_view(stack.push(frame)) =~= frames_view(stack).push(frame@));
    assert(frames_view(Seq::<Frame>::empty()) =~= Seq::<SpecFrame>::empty());
}

proof fn lemma_pop_frame(stack: Seq<Frame>)
    requires
        stack.len() > 0,
    ensures
        frames_view(stack.drop_last()) == frames_view(stack).drop_last(),
        frames_view(stack).last() == stack.last()@,
{
    assert(frames_view(stack.drop_last()) =~= frames_view(stack).drop_last());
}

/// The value of an operand.
fn read(values: &Vec<Option<Value>>, value: usize) -> (r: Option<Value>)
    ensures
        r == if value < values@.len() {
            values@[value as int]
        } else {
            None
        },
{
    if value < values.len() {
        values[value]
    } else {
        None
    }
}

/// An operation on two integers.
fn apply_int(operation: Operation, a: i64, b: i64) -> (r: Effect)
    ensures
        r == compute_int(operation, a, b),
{
    match operation {
        Operation::Add => Effect::Define(Value::Int(a.wrapping_add(b))),
        Operation::Subtract => Effect::Define(Value::Int(a.wrapping_sub(b))),
        Operation::Multiply => Effect::Define(Value::Int(a.wrapping_mul(b))),
        Operation::Divide => match a.checked_div(b) {
            Some(q) => Effect::Define(Value::Int(q)),
            None => Effect::Stop(Trap::Division),
        },
        Operation::Equal => Effect::Define(Value::Bool(a == b)),
        Operation::NotEqual => Effect::Define(Value::Bool(a != b)),
        Operation::Less => Effect::Define(Value::Bool(a < b)),
        Operation::LessEqual => Effect::Define(Value::Bool(a <= b)),
        Operation::Greater => Effect::Define(Value::Bool(a > b)),
        Operation::GreaterEqual => Effect::Define(Value::Bool(a >= b)),
    }
}

/// An operation on two values of type `operand_type`.
fn apply(operation: Operation, operand_type: Type, left: Option<Value>, right: Option<Value>) -> (r:
    Effect)
    ensures
        r == compute(operation, operand_type, left, right),
{
    match (operand_type, left, right) {
        (Type::Int, Some(Value::Int(a)), Some(Value::Int(b))) => apply_int(operation, a, b),
        (Type::Bool, Some(Value::Bool(a)), Some(Value::Bool(b))) => match operation {
            Operation::Equal => Effect::Define(Value::Bool(a == b)),
            Operation::NotEqual => Effect::Define(Value::Bool(a != b)),
            _ => Effect::Stop(Trap::Malformed),
        },
        (Type::Float, _, _) => Effect::Stop(Trap::FloatingPoint),
        _ => Effect::Stop(Trap::Malformed),
    }
}

/// An operation on one value of type `operand_type`.
fn apply_unary(operation: UnaryOperation, operand_type: Type, value: Option<Value>) -> (r: Effect)
    ensures
        r == compute_unary(operation, operand_type, value),
{
    match (operation, operand_type, value) {
        (UnaryOperation::Negate, Type::Int, Some(Value::Int(a))) => Effect::Define(
            Value::Int(0i64.wrapping_sub(a)),
        ),
        (UnaryOperation::Not, Type::Bool, Some(Value::Bool(a))) => Effect::Define(Value::Bool(!a)),
        (_, Type::Float, _) => Effect::Stop(Trap::FloatingPoint),
        _ => Effect::Stop(Trap::Malformed),
    }
}

impl Frame {
    /// What `instruction` does in the frame.
    fn effect(&self, instruction: Instruction) -> (r: Effect)
        ensures
            r == effect_of(self@, instruction),
    {
        reveal(effect_of);
        match instruction {
            Instruction::IntConst { value } => Effect::Define(Value::Int(value)),
            Instruction::FloatConst { .. } => Effect::Stop(Trap::FloatingPoint),
            Instruction::BoolConst { value } => Effect::Define(Value::Bool(value)),
            Instruction::NullConst => Effect::Define(Value::Null),
            Instruction::FunctionRef { function } => Effect::Define(Value::Function(function)),
            Instruction::Load { slot } => match read(&self.slots, slot) {
                Some(v) => Effect::Define(v),
                None => Effect::Stop(Trap::Malformed),
            },
            Instruction::Store { slot, value } => match read(&self.values, value) {
                Some(v) => Effect::Store(slot, v),
                None => Effect::Stop(Trap::Malformed),
            },
            Instruction::Binary { operation, operand_type, left, right } => apply(
                operation,
                operand_type,
                read(&self.values, left),
                read(&self.values, right),
            ),
            Instruction::Unary { operation, operand_type, operand } => apply_unary(
                operation,
                operand_type,
                read(&self.values, operand),
            ),
            Instruction::Argument { value } => match read(&self.values, value) {
                Some(v) => Effect::Argument(v),
                None => Effect::Stop(Trap::Malformed),
            },
            Instruction::Call { function, arguments } => Effect::Call(function, arguments),
            Instruction::CallIndirect { callee, arguments, .. } => match read(&self.values, callee) {
                Some(Value::Function(function)) => Effect::Call(function, arguments),
                _ => Effect::Stop(Trap::Malformed),
            },
        }
    }

    /// What `terminator` does in the frame.
    fn exit(&self, terminator: Terminator) -> (r: Exit)
        ensures
            r == exit_of(self@, terminator),
    {
        reveal(exit_of);
        match terminator {
            Terminator::Jump { target } => Exit::Goto(target),
            Terminator::Branch { condition, then_target, else_target } => match read(
                &self.values,
                condition,
            ) {
                Some(Value::Bool(true)) => Exit::Goto(then_target),
                Some(Value::Bool(false)) => Exit::Goto(else_target),
                _ => Exit::Stop(Trap::Malformed),
            },
            Terminator::Return { value: Some(value) } => match read(&self.values, value) {
                Some(v) => Exit::Return(v),
                None => Exit::Stop(Trap::Malformed),
            },
            Terminator::Return { value: None } => Exit::Return(Value::Null),
            Terminator::Trap => Exit::Stop(Trap::MissingReturn),
        }
    }

    /// The frame at the entry of `routine`, called with `arguments`.
    fn enter(routine: &Routine, function: usize, arguments: &Vec<Value>) -> (r: Option<Frame>)
        ensures
            match r {
                Some(frame) => entered(routine@, function, arguments@) == Some(frame@),
                None => entered(routine@, function, arguments@) is None,
            },
    {
        reveal(entered);
        if arguments.len() != routine.signature.params.len() || arguments.len()
            > routine.slots.len() || routine.blocks.len() == 0 {
            return None;
        }
        let mut values: Vec<Option<Value>> = Vec::new();
        let mut i: usize = 0;
        while i < routine.code.len()
            invariant
                i <= routine.code.len(),
                values@ == Seq::new(i as nat, |k: int| None::<Value>),
            decreases routine.code.len() - i,
        {
            values.push(None);
            i += 1;
            assert(values@ =~= Seq::new(i as nat, |k: int| None::<Value>));
        }
        let mut slots: Vec<Option<Value>> = Vec::new();
        let mut j: usize = 0;
        while j < routine.slots.len()
            invariant
                j <= routine.slots.len(),
                slots@ == Seq::new(
                    j as nat,
                    |k: int|
                        if k < arguments@.len() {
                            Some(arguments@[k])
                        } else {
                            None
                        },
                ),
            decreases routine.slots.len() - j,
        {
            if j < arguments.len() {
                slots.push(Some(arguments[j]));
            } else {
                slots.push(None);
            }
            j += 1;
            assert(slots@ =~= Seq::new(
                j as nat,
                |k: int|
                    if k < arguments@.len() {
                        Some(arguments@[k])
                    } else {
                        None
                    },
            ));
        }
        Some(
            Frame {
                function,
                block: 0,
                next: routine.blocks[0].start,
                values,
                slots,
                arguments: Vec::new(),
            },
        )
    }
}

/// What a step leaves behind, in executable form: a result, or none while
/// the run goes on.
spec fn progress_of(r: Option<Result<Value, Trap>>, stack: Seq<Frame>) -> Progress {
    match r {
        None => Progress::Running(frames_view(stack)),
        Some(Ok(v)) => Progress::Finished(v),
        Some(Err(trap)) => Progress::Stopped(trap),
    }
}

/// Executes `instruction` in `frame`, which was taken from the top of
/// `stack`.
fn execute(module: &Module, stack: &mut Vec<Frame>, frame: Frame, instruction: Instruction) -> (r:
    Option<Result<Value, Trap>>)
    requires
        frame.next < usize::MAX,
    ensures
        progress_of(r, final(stack)@) == after_instruction(
            module@,
            frames_view(old(stack)@),
            frame@,
            instruction,
        ),
{
    reveal(after_instruction);
    let mut frame = frame;
    let ghost before = frame@;
    match frame.effect(instruction) {
        Effect::Define(v) => {
            if frame.next < frame.values.len() {
                frame.values.set(frame.next, Some(v));
                frame.next = frame.next + 1;
                proof {
                    lemma_push_frame(stack@, frame);
                }
                stack.push(frame);
                None
            } else {
                Some(Err(Trap::Malformed))
            }
        },
        Effect::Store(slot, v) => {
            if slot < frame.slots.len() {
                frame.slots.set(slot, Some(v));
                frame.next = frame.next + 1;
                proof {
                    lemma_push_frame(stack@, frame);
                }
                stack.push(frame);
                None
            } else {
                Some(Err(Trap::Malformed))
            }
        },
        Effect::Argument(v) => {
            frame.arguments.push(v);
            frame.next = frame.next + 1;
            proof {
                lemma_push_frame(stack@, frame);
            }
            stack.push(frame);
            None
        },
        Effect::Call(function, count) => {
            if function < module.routines.len() && count <= frame.arguments.len() {
                let at = frame.arguments.len() - count;
                let passed = frame.arguments.split_off(at);
                assert(frame.arguments@ =~= before.arguments.take(at as int));
                assert(passed@ =~= before.arguments.subrange(
                    before.arguments.len() - count,
                    before.arguments.len() as int,
                ));
                match Frame::enter(&module.routines[function], function, &passed) {
                    Some(callee) => {
                        proof {
                            lemma_push_frame(stack@, frame);
                            lemma_push_frame(stack@.push(frame), callee);
                        }
                        stack.push(frame);
                        stack.push(callee);
                        None
                    },
                    None => Some(Err(Trap::Malformed)),
                }
            } else {
                Some(Err(Trap::Malformed))
            }
        },
        Effect::Stop(trap) => Some(Err(trap)),
    }
}

/// Hands the value `v` that a call returned to the caller on top of `stack`.
fn give_back(stack: &mut Vec<Frame>, v: Value) -> (r: Option<Result<Value, Trap>>)
    ensures
        progress_of(r, final(stack)@) == after_return(frames_view(old(stack)@), v),
{
    reveal(after_return);
    match stack.pop() {
        None => Some(Ok(v)),
        Some(caller) => {
            proof {
                lemma_pop_frame(old(stack)@);
            }
            let mut caller = caller;
            if caller.next < caller.values.len() {
                caller.values.set(caller.next, Some(v));
                caller.next = caller.next + 1;
                proof {
                    lemma_push_frame(stack@, caller);
                }
                stack.push(caller);
                None
            } else {
                Some(Err(Trap::Malformed))
            }
        },
    }
}

/// Executes `terminator` in `frame`, which was taken from the top of
/// `stack`.
fn leave(routine: &Routine, stack: &mut Vec<Frame>, frame: Frame, terminator: Terminator) -> (r:
    Option<Result<Value, Trap>>)
    ensures
        progress_of(r, final(stack)@) == after_terminator(
            routine@,
            frames_view(old(stack)@),
            frame@,
            terminator,
        ),
{
    reveal(after_terminator);
    let mut frame = frame;
    match frame.exit(terminator) {
        Exit::Goto(target) => {
            if target < routine.blocks.len() {
                frame.block = target;
                frame.next = routine.blocks[target].start;
                proof {
                    lemma_push_frame(stack@, frame);
                }
                stack.push(frame);
                None
            } else {
                Some(Err(Trap::Malformed))
            }
        },
        Exit::Return(v) => give_back(stack, v),
        Exit::Stop(trap) => Some(Err(trap)),
    }
}

/// One step of the machine.
fn advance(module: &Module, stack: &mut Vec<Frame>) -> (r: Option<Result<Value, Trap>>)
    ensures
        progress_of(r, final(stack)@) == step(module@, frames_view(old(stack)@)),
{
    reveal(step);
    match stack.pop() {
        None => {
            proof {
                lemma_push_frame(Seq::empty(), arbitrary());
            }
            Some(Err(Trap::Malformed))
        },
        Some(frame) => {
            proof {
                lemma_pop_frame(old(stack)@);
            }
            if frame.function >= module.routines.len() {
                return Some(Err(Trap::Malformed));
            }
            let routine = &module.routines[frame.function];
            if frame.block >= routine.blocks.len() {
                return Some(Err(Trap::Malformed));
            }
            let block = routine.blocks[frame.block];
            if frame.next < block.end {
                if frame.next < routine.code.len() {
                    let instruction = routine.code[frame.next];
                    execute(module, stack, frame, instruction)
                } else {
                    Some(Err(Trap::Malformed))
                }
            } else {
                leave(routine, stack, frame, block.terminator)
            }
        },
    }
}

impl Module {
    /// The index of the declared function of that name.
    pub fn find(&self, name: &str) -> (r: Option<usize>)
        ensures
            match r {
                Some(i) => i < self@.declared && i < self@.routines.len() && self@.routines[i as int].name
                    == name@ && forall|k: int|
                    0 <= k < i ==> (#[trigger] self@.routines[k]).name != name@,
                None => forall|k: int|
                    0 <= k < self@.declared && k < self@.routines.len() ==> (
                    #[trigger] self@.routines[k]).name != name@,
            },
    {
        let wanted = name.to_owned();
        let mut i: usize = 0;
        while i < self.declared && i < self.routines.len()
            invariant
                wanted@ == name@,
                forall|k: int| 0 <= k < i ==> (#[trigger] self@.routines[k]).name != name@,
            decreases self.routines.len() - i,
        {
            if self.routines[i].name == wanted {
                return Some(i);
            }
            i += 1;
        }
        None
    }

    /// The signature of the routine of that index.
    pub fn signature(&self, function: usize) -> (r: Option<&FunctionSignature>)
        ensures
            match r {
                Some(s) => function < self@.routines.len() && s@
                    == self@.routines[function as int].signature,
                None => function >= self@.routines.len(),
            },
    {
        if function < self.routines.len() {
            Some(&self.routines[function].signature)
        } else {
            None
        }
    }

    /// Calls the routine of index `function` with `arguments`, for at most
    /// `fuel` steps of the machine.
    ///
    /// The number of arguments must be the number of the routine's
    /// parameters; their types are not checked.
    pub fn call(&self, function: usize, arguments: &Vec<Value>, fuel: u64) -> (r: Result<
        Value,
        Trap,
    >)
        ensures
            r == called(self@, function, arguments@, fuel as nat),
    {
        if function >= self.routines.len() {
            return Err(Trap::Malformed);
        }
        let mut stack: Vec<Frame> = Vec::new();
        match Frame::enter(&self.routines[function], function, arguments) {
            Some(frame) => {
                proof {
                    lemma_push_frame(stack@, frame);
                    assert(seq![frame@] =~= Seq::<SpecFrame>::empty().push(frame@));
                }
                stack.push(frame);
            },
            None => {
                return Err(Trap::Malformed);
            },
        }
        let mut left = fuel;
        while left > 0
            invariant
                called(self@, function, arguments@, fuel as nat) == run(
                    self@,
                    frames_view(stack@),
                    left as nat,
                ),
            decreases left,
        {
            match advance(self, &mut stack) {
                None => {},
                Some(result) => {
                    return result;
                },
            }
            left = left - 1;
        }
        Err(Trap::OutOfFuel)
    }
}

} // verus!
