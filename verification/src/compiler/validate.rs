//! Telling whether a module is well formed, for modules that were not made
//! by the lowering.

use super::ir::{
    block_wf, instruction_wf, terminator_wf, BasicBlock, Instruction, Module, Routine, Terminator,
};
use vstd::prelude::*;

verus! {

/// Whether an instruction at index `at` is well formed.
fn instruction_ok(
    instruction: Instruction,
    at: usize,
    slots: usize,
    floats: usize,
    routines: usize,
) -> (r: bool)
    ensures
        r == instruction_wf(instruction, at as int, slots as nat, floats as nat, routines as nat),
{
    match instruction {
        Instruction::IntConst { .. } => true,
        Instruction::FloatConst { literal } => literal < floats,
        Instruction::BoolConst { .. } => true,
        Instruction::NullConst => true,
        Instruction::FunctionRef { function } => function < routines,
        Instruction::Load { slot } => slot < slots,
        Instruction::Store { slot, value } => slot < slots && value < at,
        Instruction::Binary { left, right, .. } => left < at && right < at,
        Instruction::Unary { operand, .. } => operand < at,
        Instruction::Argument { value } => value < at,
        Instruction::Call { function, .. } => function < routines,
        Instruction::CallIndirect { callee, signature, .. } => callee < at && signature < routines,
    }
}

/// Whether a terminator is well formed.
fn terminator_ok(terminator: Terminator, blocks: usize, values: usize) -> (r: bool)
    ensures
        r == terminator_wf(terminator, blocks as nat, values as nat),
{
    match terminator {
        Terminator::Jump { target } => target < blocks,
        Terminator::Branch { condition, then_target, else_target } => condition < values
            && then_target < blocks && else_target < blocks,
        Terminator::Return { value: Some(value) } => value < values,
        Terminator::Return { value: None } => true,
        Terminator::Trap => true,
    }
}

/// Whether a block is well formed.
fn block_ok(block: BasicBlock, blocks: usize, code: usize) -> (r: bool)
    ensures
        r == block_wf(block, blocks as nat, code as nat),
{
    block.start <= block.end && block.end <= code && terminator_ok(block.terminator, blocks, code)
}

impl Routine {
    /// Whether the routine is well formed in a module of `routines`
    /// routines.
    pub fn well_formed(&self, routines: usize) -> (r: bool)
        ensures
            r == self@.wf(routines as nat),
    {
        if self.blocks.len() == 0 || self.signature.params.len() > self.slots.len() {
            return false;
        }
        let mut i: usize = 0;
        while i < self.code.len()
            invariant
                i <= self.code.len(),
                forall|k: int|
                    0 <= k < i ==> instruction_wf(
                        #[trigger] self@.code[k],
                        k,
                        self@.slots.len(),
                        self@.floats.len(),
                        routines as nat,
                    ),
            decreases self.code.len() - i,
        {
            if !instruction_ok(
                self.code[i],
                i,
                self.slots.len(),
                self.floats.len(),
                routines,
            ) {
                assert(!instruction_wf(
                    self@.code[i as int],
                    i as int,
                    self@.slots.len(),
                    self@.floats.len(),
                    routines as nat,
                ));
                return false;
            }
            i += 1;
        }
        let mut b: usize = 0;
        while b < self.blocks.len()
            invariant
                b <= self.blocks.len(),
                forall|k: int|
                    0 <= k < b ==> block_wf(
                        #[trigger] self@.blocks[k],
                        self@.blocks.len(),
                        self@.code.len(),
                    ),
            decreases self.blocks.len() - b,
        {
            if !block_ok(self.blocks[b], self.blocks.len(), self.code.len()) {
                assert(!block_wf(self@.blocks[b as int], self@.blocks.len(), self@.code.len()));
                return false;
            }
            b += 1;
        }
        true
    }
}

impl Module {
    /// Whether the module is well formed.  A module that the compiler made
    /// is; one that was put together by hand may not be.
    pub fn well_formed(&self) -> (r: bool)
        ensures
            r == self@.wf(),
    {
        if self.declared > self.routines.len() {
            return false;
        }
        let mut i: usize = 0;
        while i < self.routines.len()
            invariant
                i <= self.routines.len(),
                self@.routines.len() == self.routines.len(),
                forall|k: int|
                    0 <= k < i ==> (#[trigger] self@.routines[k]).wf(self@.routines.len()),
            decreases self.routines.len() - i,
        {
            if !self.routines[i].well_formed(self.routines.len()) {
                assert(self@.routines[i as int] == self.routines[i as int]@);
                return false;
            }
            assert(self@.routines[i as int] == self.routines[i as int]@);
            i += 1;
        }
        true
    }
}

} // verus!
