//! The code generator: scope and type checking, and lowering to a
//! control-flow graph of basic blocks.
//!
//! `rules` states what every program lowers to, `lower` does it, `machine`
//! states what the lowered form means, and `interpreter` runs it.  `native`
//! binds the signature of a routine for a native backend, and `layout`
//! orders its blocks for one.  The other modules hold what is proved of the
//! rules and of the machine.

pub mod arithmetic;
pub mod builder;
pub mod frame;
pub mod interpreter;
pub mod ir;
pub mod laws;
pub mod layout;
pub mod lower;
pub mod machine;
pub mod native;
pub mod rules;
pub mod shortcut;
pub mod symbol_table;
pub mod unfold;
pub mod validate;
pub mod wellformed;

use crate::error::{CompileResult, SpecCompileError};
use crate::lexer::{lex, spec_lex};
use crate::parser::grammar::spec_parse;
use crate::parser::Parser;
use ir::{Module, SpecModule};
use lower::{lower_program, lowered};
use rules::lowered_program;
use vstd::prelude::*;

pub use symbol_table::SymbolTable;

verus! {

/// The module that a source text compiles to: its tokens are scanned, the
/// tokens parsed, and the program lowered; the first error of the three
/// stages is the result.
pub open spec fn spec_compile(source: Seq<char>) -> Result<SpecModule, SpecCompileError> {
    match spec_lex(source) {
        Err(e) => Err(e),
        Ok(tokens) => match spec_parse(tokens) {
            Err(e) => Err(e),
            Ok(program) => lowered_program(program),
        },
    }
}

/// The compiler: one compilation unit at a time, start to finish.
#[derive(Debug)]
pub struct Compiler {
    /// How many units this compiler has compiled without error.
    compiled: u64,
}

impl Default for Compiler {
    /// Create a new compiler with the default settings.
    fn default() -> (c: Self)
        ensures
            c.compiled() == 0,
    {
        Compiler { compiled: 0 }
    }
}

impl Compiler {
    /// How many units this compiler has compiled without error; the count
    /// stops at `u64::MAX`.
    pub closed spec fn compiled(&self) -> nat {
        self.compiled as nat
    }

    /// How many units this compiler has compiled without error.
    pub fn units(&self) -> (n: u64)
        ensures
            n == self.compiled(),
    {
        self.compiled
    }

    /// Compiles a source text to a module.
    ///
    /// The result is all or nothing: an error in any function of the unit
    /// leaves no module, and so no function of the unit that could be
    /// called.  A module that comes out is well formed.
    pub fn compile(&mut self, source: &str) -> (r: CompileResult<Module>)
        ensures
            lowered(r) == spec_compile(source@),
            r matches Ok(module) ==> module@.wf(),
            final(self).compiled() == if r is Ok && old(self).compiled() < u64::MAX {
                old(self).compiled() + 1
            } else {
                old(self).compiled()
            },
    {
        let tokens = lex(source.to_owned())?;
        let mut parser = Parser::new(tokens);
        let program = parser.parse()?;
        let module = lower_program(&program)?;
        if self.compiled < u64::MAX {
            self.compiled = self.compiled + 1;
        }
        Ok(module)
    }
}

} // verus!
