//! The lowered form of a program: routines of basic blocks.
//!
//! A routine holds its instructions in one sequence, `code`.  The value that
//! an instruction computes is named by the instruction's index in `code`.  A
//! basic block is a range of `code` that ends in one terminator.  Storage
//! slots hold the variables; the first slots of a routine are its
//! parameters, in order.

use crate::ast::Type;
use vstd::prelude::*;

verus! {

/// The type of a value: a primitive type, or the type of a function value,
/// which is told by a routine with the same signature.
#[derive(Debug, Clone, Copy, PartialEq, Eq, Structural)]
pub enum ValueType {
    Data(Type),
    Function(usize),
}

/// The operations on two values of one type.
#[derive(Debug, Clone, Copy, PartialEq, Eq, Structural)]
pub enum Operation {
    Add,
    Subtract,
    Multiply,
    Divide,
    Equal,
    NotEqual,
    Less,
    LessEqual,
    Greater,
    GreaterEqual,
}

/// The operations on one value.
#[derive(Debug, Clone, Copy, PartialEq, Eq, Structural)]
pub enum UnaryOperation {
    Negate,
    Not,
}

/// One instruction.  Operands are values, named by the index of the
/// instruction that computed them.
#[derive(Debug, Clone, Copy, PartialEq, Eq, Structural)]
pub enum Instruction {
    /// An integer constant.
    IntConst { value: i64 },
    /// A floating-point constant: the literal of that index in the
    /// routine's `floats`.
    FloatConst { literal: usize },
    /// A boolean constant.
    BoolConst { value: bool },
    /// The null value.
    NullConst,
    /// The routine of that index, as a value.
    FunctionRef { function: usize },
    /// The content of a slot.
    Load { slot: usize },
    /// Puts a value into a slot.  Computes no value.
    Store { slot: usize, value: usize },
    /// An operation on two values of type `operand_type`.
    Binary { operation: Operation, operand_type: Type, left: usize, right: usize },
    /// An operation on one value of type `operand_type`.
    Unary { operation: UnaryOperation, operand_type: Type, operand: usize },
    /// Hands a value to the next call, as its next argument.  Computes no
    /// value.
    Argument { value: usize },
    /// Calls the routine of that index with the last `arguments` values
    /// handed over.
    Call { function: usize, arguments: usize },
    /// Calls the function value `callee` with the last `arguments` values
    /// handed over.  The routine of index `signature` tells the callee's
    /// signature.
    CallIndirect { callee: usize, signature: usize, arguments: usize },
}

/// How a basic block ends.
#[derive(Debug, Clone, Copy, PartialEq, Eq, Structural)]
pub enum Terminator {
    /// Goes on at another block.
    Jump { target: usize },
    /// Goes on at `then_target` when `condition` is true, at `else_target`
    /// when it is false.
    Branch { condition: usize, then_target: usize, else_target: usize },
    /// Leaves the routine.
    Return { value: Option<usize> },
    /// Stops the program: control must not arrive here.
    Trap,
}

/// A basic block: the instructions of `code` from `start` up to `end`, and a
/// terminator.
#[derive(Debug, Clone, Copy, PartialEq, Eq, Structural)]
pub struct BasicBlock {
    pub start: usize,
    pub end: usize,
    pub terminator: Terminator,
}

/// A function signature: ordered parameter types and a return type.
#[derive(Debug, Clone, PartialEq, Eq)]
pub struct FunctionSignature {
    pub params: Vec<Type>,
    pub return_type: Type,
}

/// The mathematical value of a `FunctionSignature`.
pub struct SpecFunctionSignature {
    pub params: Seq<Type>,
    pub return_type: Type,
}

impl View for FunctionSignature {
    type V = SpecFunctionSignature;

    open spec fn view(&self) -> SpecFunctionSignature {
        SpecFunctionSignature { params: self.params@, return_type: self.return_type }
    }
}

/// A lowered function.  Execution starts at block 0.
#[derive(Debug, PartialEq, Eq)]
pub struct Routine {
    /// The function's name; empty for a function literal.
    pub name: String,
    pub signature: FunctionSignature,
    /// The type of every storage slot.
    pub slots: Vec<ValueType>,
    /// The text of every floating-point literal.
    pub floats: Vec<String>,
    pub code: Vec<Instruction>,
    pub blocks: Vec<BasicBlock>,
}

/// The mathematical value of a `Routine`.
pub struct SpecRoutine {
    pub name: Seq<char>,
    pub signature: SpecFunctionSignature,
    pub slots: Seq<ValueType>,
    pub floats: Seq<Seq<char>>,
    pub code: Seq<Instruction>,
    pub blocks: Seq<BasicBlock>,
}

/// The texts of a sequence of strings.
pub open spec fn texts(v: Seq<String>) -> Seq<Seq<char>> {
    Seq::new(v.len(), |i: int| v[i]@)
}

impl View for Routine {
    type V = SpecRoutine;

    open spec fn view(&self) -> SpecRoutine {
        SpecRoutine {
            name: self.name@,
            signature: self.signature@,
            slots: self.slots@,
            floats: texts(self.floats@),
            code: self.code@,
            blocks: self.blocks@,
        }
    }
}

/// The views of a sequence of routines.
pub open spec fn routines_view(v: Seq<Routine>) -> Seq<SpecRoutine> {
    Seq::new(v.len(), |i: int| v[i]@)
}

/// The views of a sequence of signatures.
pub open spec fn signatures_view(v: Seq<FunctionSignature>) -> Seq<SpecFunctionSignature> {
    Seq::new(v.len(), |i: int| v[i]@)
}

/// A compiled unit.  The first `declared` routines are the program's
/// functions, in source order; the routines after them are its function
/// literals.
#[derive(Debug, PartialEq, Eq)]
pub struct Module {
    pub routines: Vec<Routine>,
    pub declared: usize,
}

/// The mathematical value of a `Module`.
pub struct SpecModule {
    pub routines: Seq<SpecRoutine>,
    pub declared: usize,
}

impl View for Module {
    type V = SpecModule;

    open spec fn view(&self) -> SpecModule {
        SpecModule { routines: routines_view(self.routines@), declared: self.declared }
    }
}

/// Whether an instruction that stands at index `at` of its routine's code is
/// well formed: its operands are values of earlier instructions, and its
/// slot, literal and routines exist.
pub open spec fn instruction_wf(
    instruction: Instruction,
    at: int,
    slots: nat,
    floats: nat,
    routines: nat,
) -> bool {
    match instruction {
        Instruction::IntConst { .. } => true,
        Instruction::FloatConst { literal } => literal < floats,
        Instruction::BoolConst { .. } => true,
        Instruction::NullConst => true,
        Instruction::FunctionRef { function } => function < routines,
        Instruction::Load { slot } => slot < slots,
        Instruction::Store { slot, value } => slot < slots && value < at,
        Instruction::Binary { left, right, .. } => left < at && right < at,
        Instruction::Unary { operand, .. } => operand < at,
        Instruction::Argument { value } => value < at,
        Instruction::Call { function, .. } => function < routines,
        Instruction::CallIndirect { callee, signature, .. } => callee < at && signature < routines,
    }
}

/// Whether a terminator is well formed: its targets are blocks, and its
/// operand is the value of an instruction.
pub open spec fn terminator_wf(terminator: Terminator, blocks: nat, values: nat) -> bool {
    match terminator {
        Terminator::Jump { target } => target < blocks,
        Terminator::Branch { condition, then_target, else_target } => condition < values
            && then_target < blocks && else_target < blocks,
        Terminator::Return { value: Some(value) } => value < values,
        Terminator::Return { value: None } => true,
        Terminator::Trap => true,
    }
}

/// Whether a block is well formed: it is a range of the code, and its
/// terminator is well formed.
pub open spec fn block_wf(block: BasicBlock, blocks: nat, code: nat) -> bool {
    &&& block.start <= block.end <= code
    &&& terminator_wf(block.terminator, blocks, code)
}

impl SpecRoutine {
    /// Whether the routine is well formed in a module of `routines`
    /// routines: it has an entry block and a slot for every parameter, and
    /// all its instructions and blocks are well formed.
    pub open spec fn wf(self, routines: nat) -> bool {
        &&& self.blocks.len() > 0
        &&& self.signature.params.len() <= self.slots.len()
        &&& forall|i: int|
            0 <= i < self.code.len() ==> instruction_wf(
                #[trigger] self.code[i],
                i,
                self.slots.len(),
                self.floats.len(),
                routines,
            )
        &&& forall|b: int|
            0 <= b < self.blocks.len() ==> block_wf(
                #[trigger] self.blocks[b],
                self.blocks.len(),
                self.code.len(),
            )
    }
}

impl SpecModule {
    /// Whether the module is well formed: every routine is.
    pub open spec fn wf(self) -> bool {
        &&& self.declared <= self.routines.len()
        &&& forall|r: int|
            0 <= r < self.routines.len() ==> (#[trigger] self.routines[r]).wf(self.routines.len())
    }
}

/// The texts of a sequence with one more string.
pub proof fn lemma_push_text(v: Seq<String>, s: String)
    ensures
        texts(v.push(s)) == texts(v).push(s@),
        texts(Seq::<String>::empty()) == Seq::<Seq<char>>::empty(),
{
    assert(texts(v.push(s)) =~= texts(v).push(s@));
    assert(texts(Seq::<String>::empty()) =~= Seq::<Seq<char>>::empty());
}

/// The views of a sequence with one more routine.
pub proof fn lemma_push_routine(v: Seq<Routine>, r: Routine)
    ensures
        routines_view(v.push(r)) == routines_view(v).push(r@),
        routines_view(Seq::<Routine>::empty()) == Seq::<SpecRoutine>::empty(),
{
    assert(routines_view(v.push(r)) =~= routines_view(v).push(r@));
    assert(routines_view(Seq::<Routine>::empty()) =~= Seq::<SpecRoutine>::empty());
}

/// The views of a sequence with one more signature.
pub proof fn lemma_push_signature(v: Seq<FunctionSignature>, s: FunctionSignature)
    ensures
        signatures_view(v.push(s)) == signatures_view(v).push(s@),
        signatures_view(Seq::<FunctionSignature>::empty()) == Seq::<SpecFunctionSignature>::empty(),
{
    assert(signatures_view(v.push(s)) =~= signatures_view(v).push(s@));
    assert(signatures_view(Seq::<FunctionSignature>::empty()) =~= Seq::<SpecFunctionSignature>::empty());
}

} // verus!
