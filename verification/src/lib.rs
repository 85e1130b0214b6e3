//! A compiler for a small statically typed language of expressions and
//! statements.
//!
//! Source text is scanned into tokens (`lexer`), the tokens are parsed into
//! an abstract syntax tree (`parser`, `ast`, `precedence`), and the tree is
//! checked and lowered to routines of basic blocks (`compiler`).  Each stage
//! fails fast: the first error ends the compilation, and `error` reports it
//! with its place in the source.
//!
//! Every stage is stated as a function on mathematical values, and the
//! executable code is proved to compute that function:
//!
//! - `lexer::spec_lex` and `lexer::lex`;
//! - `parser::grammar::spec_parse` and `parser::Parser::parse`;
//! - `compiler::rules::lowered_program` and `compiler::lower::lower_program`;
//! - `compiler::machine::called`, which says what a lowered module means, and
//!   `compiler::ir::Module::call`, which runs it.
//!
//! `parser::laws`, `parser::grouping`, `compiler::laws`, `compiler::frame`,
//! `compiler::wellformed`, `compiler::arithmetic` and `compiler::shortcut`
//! hold what is proved of these functions for every input: how operators
//! group, where errors point, what a loop looks like in the control-flow
//! graph, that scopes do not leak, that every module that comes out is well
//! formed, that compiled constant arithmetic computes the right value, and
//! that a logical operator whose left operand decides never runs its right
//! operand.

pub mod ast;
pub mod compiler;
pub mod error;
pub mod lexer;
pub mod parser;
pub mod precedence;
pub mod text;

pub use error::{CompileError, CompileResult, Span};
