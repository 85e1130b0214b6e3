//! The state of a routine under construction.

use super::ir::{
    lemma_push_text, texts, BasicBlock, FunctionSignature, Instruction, Routine,
    SpecFunctionSignature, SpecRoutine, Terminator, ValueType,
};
use super::symbol_table::{defined, resolve, SymbolTable};
use crate::ast::Type;
use vstd::prelude::*;

verus! {

/// Where a variable lives, and the type of what it holds.
#[derive(Debug, Clone, Copy, PartialEq, Eq, Structural)]
pub struct Slot {
    pub index: usize,
    pub value_type: ValueType,
}

/// A value that an expression was lowered to, and its type.
#[derive(Debug, Clone, Copy, PartialEq, Eq, Structural)]
pub struct Typed {
    pub value: usize,
    pub value_type: ValueType,
}

/// A routine under construction.  Instructions are appended to the current
/// block; a terminator closes it and makes another block current.
pub struct FunctionBuilder {
    code: Vec<Instruction>,
    blocks: Vec<BasicBlock>,
    current: usize,
    start: usize,
    slots: Vec<ValueType>,
    floats: Vec<String>,
    scopes: SymbolTable<Slot>,
    return_type: Type,
}

/// The mathematical value of a `FunctionBuilder`.
pub struct SpecBuilder {
    pub code: Seq<Instruction>,
    pub blocks: Seq<BasicBlock>,
    /// The block that instructions are appended to.
    pub current: usize,
    /// Where in `code` the current block begins.
    pub start: usize,
    pub slots: Seq<ValueType>,
    pub floats: Seq<Seq<char>>,
    pub scopes: Seq<Map<Seq<char>, Slot>>,
    /// The return type of the function being lowered.
    pub return_type: Type,
}

/// A block that nothing was put into yet: it traps.
pub open spec fn fresh_block() -> BasicBlock {
    BasicBlock { start: 0, end: 0, terminator: Terminator::Trap }
}

impl SpecBuilder {
    /// The builder of a function that returns `return_type`: one empty
    /// block, which is current, no slots and no scopes.
    pub open spec fn empty(return_type: Type) -> SpecBuilder {
        SpecBuilder {
            code: Seq::empty(),
            blocks: seq![fresh_block()],
            current: 0,
            start: 0,
            slots: Seq::empty(),
            floats: Seq::empty(),
            scopes: Seq::empty(),
            return_type,
        }
    }

    /// The name of the value that the next instruction computes.
    pub open spec fn next_value(self) -> usize {
        self.code.len() as usize
    }

    /// The index of the next block.
    pub open spec fn next_block(self) -> usize {
        self.blocks.len() as usize
    }

    /// The index of the next slot.
    pub open spec fn next_slot(self) -> usize {
        self.slots.len() as usize
    }

    /// The index of the next floating-point literal.
    pub open spec fn next_float(self) -> usize {
        self.floats.len() as usize
    }

    /// With `instruction` appended to the current block.
    pub open spec fn emit(self, instruction: Instruction) -> SpecBuilder {
        SpecBuilder { code: self.code.push(instruction), ..self }
    }

    /// With one more block, which traps until something is put into it.
    pub open spec fn add_block(self) -> SpecBuilder {
        SpecBuilder { blocks: self.blocks.push(fresh_block()), ..self }
    }

    /// With the current block closed by `terminator`, and `next` current.
    pub open spec fn terminate(self, terminator: Terminator, next: usize) -> SpecBuilder {
        SpecBuilder {
            blocks: if self.current < self.blocks.len() {
                self.blocks.update(
                    self.current as int,
                    BasicBlock { start: self.start, end: self.code.len() as usize, terminator },
                )
            } else {
                self.blocks
            },
            current: next,
            start: self.code.len() as usize,
            ..self
        }
    }

    /// With one more slot, of type `value_type`.
    pub open spec fn add_slot(self, value_type: ValueType) -> SpecBuilder {
        SpecBuilder { slots: self.slots.push(value_type), ..self }
    }

    /// With one more floating-point literal.
    pub open spec fn add_float(self, text: Seq<char>) -> SpecBuilder {
        SpecBuilder { floats: self.floats.push(text), ..self }
    }

    /// With a scope opened inside the innermost one.
    pub open spec fn enter_scope(self) -> SpecBuilder {
        SpecBuilder { scopes: self.scopes.push(Map::empty()), ..self }
    }

    /// With the innermost scope discarded.
    pub open spec fn exit_scope(self) -> SpecBuilder {
        SpecBuilder {
            scopes: if self.scopes.len() > 0 {
                self.scopes.drop_last()
            } else {
                self.scopes
            },
            ..self
        }
    }

    /// With `name` bound to `slot` in the innermost scope.
    pub open spec fn define(self, name: Seq<char>, slot: Slot) -> SpecBuilder {
        SpecBuilder {
            scopes: if self.scopes.len() > 0 {
                defined(self.scopes, name, slot)
            } else {
                seq![Map::empty().insert(name, slot)]
            },
            ..self
        }
    }

    /// What `name` means in the scopes.
    pub open spec fn lookup(self, name: Seq<char>) -> Option<Slot> {
        resolve(self.scopes, name)
    }

    /// The routine built, under `name` and `signature`.
    pub open spec fn routine(self, name: Seq<char>, signature: SpecFunctionSignature) -> SpecRoutine {
        SpecRoutine {
            name,
            signature,
            slots: self.slots,
            floats: self.floats,
            code: self.code,
            blocks: self.blocks,
        }
    }
}

impl View for FunctionBuilder {
    type V = SpecBuilder;

    closed spec fn view(&self) -> SpecBuilder {
        SpecBuilder {
            code: self.code@,
            blocks: self.blocks@,
            current: self.current,
            start: self.start,
            slots: self.slots@,
            floats: texts(self.floats@),
            scopes: self.scopes@,
            return_type: self.return_type,
        }
    }
}

impl SpecBuilder {
    /// Whether every index of the builder fits a machine word.
    pub open spec fn bounded(self) -> bool {
        &&& self.code.len() <= usize::MAX
        &&& self.blocks.len() <= usize::MAX
        &&& self.slots.len() <= usize::MAX
        &&& self.floats.len() <= usize::MAX
    }
}

impl FunctionBuilder {
    /// The indices of a builder fit a machine word.
    pub proof fn lemma_bounded(&self)
        ensures
            self@.bounded(),
    {
        assert(self.code@.len() == self.code.len());
        assert(self.blocks@.len() == self.blocks.len());
        assert(self.slots@.len() == self.slots.len());
        assert(self.floats@.len() == self.floats.len());
    }

    /// The builder of a function that returns `return_type`.
    pub fn new(return_type: Type) -> (b: Self)
        ensures
            b@ == SpecBuilder::empty(return_type),
    {
        let mut blocks: Vec<BasicBlock> = Vec::new();
        blocks.push(BasicBlock { start: 0, end: 0, terminator: Terminator::Trap });
        proof {
            lemma_push_text(Seq::empty(), arbitrary());
            assert(blocks@ =~= seq![fresh_block()]);
        }
        FunctionBuilder {
            code: Vec::new(),
            blocks,
            current: 0,
            start: 0,
            slots: Vec::new(),
            floats: Vec::new(),
            scopes: SymbolTable::new(),
            return_type,
        }
    }

    /// The return type of the function being lowered.
    pub fn return_type(&self) -> (t: Type)
        ensures
            t == self@.return_type,
    {
        self.return_type
    }

    /// The block that instructions are appended to.
    pub fn current_block(&self) -> (block: usize)
        ensures
            block == self@.current,
    {
        self.current
    }

    /// Appends `instruction` to the current block.  Returns the name of the
    /// value that it computes.
    pub fn emit(&mut self, instruction: Instruction) -> (value: usize)
        ensures
            final(self)@ == old(self)@.emit(instruction),
            value == old(self)@.next_value(),
    {
        let value = self.code.len();
        self.code.push(instruction);
        value
    }

    /// Adds a block.  Returns its index.
    pub fn add_block(&mut self) -> (block: usize)
        ensures
            final(self)@ == old(self)@.add_block(),
            block == old(self)@.next_block(),
    {
        let block = self.blocks.len();
        self.blocks.push(BasicBlock { start: 0, end: 0, terminator: Terminator::Trap });
        block
    }

    /// Closes the current block with `terminator`, and makes `next` current.
    pub fn terminate(&mut self, terminator: Terminator, next: usize)
        ensures
            final(self)@ == old(self)@.terminate(terminator, next),
    {
        if self.current < self.blocks.len() {
            self.blocks.set(
                self.current,
                BasicBlock { start: self.start, end: self.code.len(), terminator },
            );
        }
        self.current = next;
        self.start = self.code.len();
    }

    /// Adds a slot of type `value_type`.  Returns its index.
    pub fn add_slot(&mut self, value_type: ValueType) -> (slot: usize)
        ensures
            final(self)@ == old(self)@.add_slot(value_type),
            slot == old(self)@.next_slot(),
    {
        let slot = self.slots.len();
        self.slots.push(value_type);
        slot
    }

    /// Adds a floating-point literal.  Returns its index.
    pub fn add_float(&mut self, text: String) -> (literal: usize)
        ensures
            final(self)@ == old(self)@.add_float(text@),
            literal == old(self)@.next_float(),
    {
        let literal = self.floats.len();
        proof {
            lemma_push_text(self.floats@, text);
        }
        self.floats.push(text);
        literal
    }

    /// Opens a scope inside the innermost one.
    pub fn enter_scope(&mut self)
        ensures
            final(self)@ == old(self)@.enter_scope(),
    {
        self.scopes.enter_scope();
    }

    /// Discards the innermost scope.
    pub fn exit_scope(&mut self)
        ensures
            final(self)@ == old(self)@.exit_scope(),
    {
        self.scopes.exit_scope();
    }

    /// Binds `name` to `slot` in the innermost scope.
    pub fn define(&mut self, name: String, slot: Slot)
        ensures
            final(self)@ == old(self)@.define(name@, slot),
    {
        self.scopes.define(name, slot);
    }

    /// What `name` means in the scopes.
    pub fn lookup(&self, name: &String) -> (r: Option<Slot>)
        ensures
            r == self@.lookup(name@),
    {
        match self.scopes.lookup(name) {
            Some(slot) => Some(*slot),
            None => None,
        }
    }

    /// The routine built, under `name` and `signature`.
    pub fn finish(self, name: String, signature: FunctionSignature) -> (r: Routine)
        ensures
            r@ == self@.routine(name@, signature@),
    {
        Routine {
            name,
            signature,
            slots: self.slots,
            floats: self.floats,
            code: self.code,
            blocks: self.blocks,
        }
    }
}

} // verus!
