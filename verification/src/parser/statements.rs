//! Blocks and statements, by recursive descent.

use super::grammar::{
    spec_block, spec_block_items, spec_block_statement, spec_condition, spec_do_until_statement,
    spec_for_statement, spec_if_statement, spec_return_statement, spec_simple_statement,
    spec_statement, spec_variable_declaration, spec_while_statement,
};
use super::{
    after, lemma_after_empty, lemma_after_last, lemma_after_push, lemma_push_statement, outcome,
    Parser,
};
use crate::ast::{lemma_block_view, statements_view, Block, Expression, Statement};
use super::terminals::{expect, Parse};
use super::unfold::{
    lemma_block, lemma_block_items, lemma_block_statement, lemma_condition,
    lemma_do_until_statement, lemma_for_statement, lemma_if_statement, lemma_return_statement,
    lemma_simple_statement, lemma_statement, lemma_variable_declaration, lemma_while_statement,
};
use crate::error::CompileResult;
use crate::lexer::tokens::{SpecTokenType, TokenType};
use crate::precedence::Precedence;
use vstd::prelude::*;

verus! {

broadcast use super::terminals::group_leaves_advance;

impl Parser {
    /// Parse a block.
    /// i.e. `{ a += 1; return a; }`
    pub(super) fn parse_block(&mut self) -> (r: CompileResult<Block>)
        ensures
            final(self).follows(old(self), r is Ok),
            final(self).halted(r),
            outcome(r, final(self).position()) == spec_block(old(self).tokens(), old(self).position()),
        decreases old(self).remaining(), 9int,
    {
        proof {
            lemma_block(self.tokens(), self.position());
        }
        let ghost t = self.tokens();
        let ghost start = self.position();
        self.consume(TokenType::LeftBrace)?;
        let mut statements: Vec<Statement> = Vec::new();
        proof {
            lemma_push_statement(statements@, arbitrary());
            lemma_after_empty(spec_block_items(t, self.position()));
        }
        loop
            invariant
                                t == self.tokens(),
                start == old(self).position(),
                self.follows(old(self), true),
                expect(t, start, SpecTokenType::LeftBrace) is Ok,
                spec_block_items(t, start + 1) == after(
                    statements_view(statements@),
                    spec_block_items(t, self.position()),
                ),
            decreases self.remaining(),
        {
            proof {
                lemma_block(t, start);
                lemma_block_items(t, self.position());
            }
            let ghost before = statements_view(statements@);
            if self.match_peek(&TokenType::RightBrace) {
                self.advance();
                let block = Block { statements };
                proof {
                    lemma_block_view(block);
                    lemma_after_last(before, arbitrary(), self.position());
                }
                return Ok(block);
            }
            let ghost here = self.position();
            let statement = self.parse_statement()?;
            proof {
                let rest = spec_block_items(t, self.position());
                lemma_push_statement(statements@, statement);
                assert(spec_block_items(t, here) == after(seq![statement@], rest));
                lemma_after_push(before, statement@, rest);
            }
            statements.push(statement);
        }
    }

    /// Parse a block statement.
    /// i.e. `{ a += 1; return a; }`
    pub(super) fn parse_block_statement(&mut self) -> (r: CompileResult<Statement>)
        ensures
            final(self).follows(old(self), r is Ok),
            final(self).halted(r),
            outcome(r, final(self).position()) == spec_block_statement(
                old(self).tokens(),
                old(self).position(),
            ),
        decreases old(self).remaining(), 10int,
    {
        proof {
            lemma_block_statement(self.tokens(), self.position());
        }
        let first = self.mark();
        let block = self.parse_block()?;
        Ok(Statement::Block { block: Box::new(block), span: self.span_from(first) })
    }

    /// Parse a statement.
    /// Can be any of the following:
    /// - Variable declaration
    /// - Assignment
    /// - If statement
    /// - For statement
    /// - While statement
    /// - Do until statement
    /// - Return statement
    /// - Block
    /// - Expression
    pub(super) fn parse_statement(&mut self) -> (r: CompileResult<Statement>)
        ensures
            final(self).follows(old(self), r is Ok),
            final(self).halted(r),
            outcome(r, final(self).position()) == spec_statement(
                old(self).tokens(),
                old(self).position(),
            ),
        decreases old(self).remaining(), 11int,
    {
        proof {
            lemma_statement(self.tokens(), self.position());
        }
        match self.peek() {
            Some(TokenType::Let) => self.parse_variable_declaration(),
            Some(TokenType::If) => self.parse_if_statement(),
            Some(TokenType::For) => self.parse_for_statement(),
            Some(TokenType::While) => self.parse_while_statement(),
            Some(TokenType::Do) => self.parse_do_until_statement(),
            Some(TokenType::Return) => self.parse_return_statement(),
            Some(TokenType::LeftBrace) => self.parse_block_statement(),
            _ => self.parse_simple_statement(true),
        }
    }

    /// Parse a variable declaration.
    /// i.e. `let a: int = 1;`
    /// i.e. `let a = 1;` (type is inferred)
    /// Value must be assigned.
    pub(super) fn parse_variable_declaration(&mut self) -> (r: CompileResult<Statement>)
        ensures
            final(self).follows(old(self), r is Ok),
            final(self).halted(r),
            outcome(r, final(self).position()) == spec_variable_declaration(
                old(self).tokens(),
                old(self).position(),
            ),
        decreases old(self).remaining(), 10int,
    {
        proof {
            lemma_variable_declaration(self.tokens(), self.position());
        }
        let first = self.mark();
        self.consume(TokenType::Let)?;
        let ident = self.parse_ident()?;
        let var_type = self.parse_annotation()?;
        self.consume(TokenType::Equal)?;
        let value = self.parse_expression(Precedence::Lowest)?;
        self.consume(TokenType::Semicolon)?;
        Ok(Statement::VariableDeclaration { ident, var_type, value, span: self.span_from(first) })
    }

    /// Parse a condition between parentheses.
    pub(super) fn parse_condition(&mut self) -> (r: CompileResult<Expression>)
        ensures
            final(self).follows(old(self), r is Ok),
            final(self).halted(r),
            outcome(r, final(self).position()) == spec_condition(
                old(self).tokens(),
                old(self).position(),
            ),
        decreases old(self).remaining(), 9int,
    {
        proof {
            lemma_condition(self.tokens(), self.position());
        }
        self.consume(TokenType::LeftParen)?;
        let condition = self.parse_expression(Precedence::Lowest)?;
        self.consume(TokenType::RightParen)?;
        Ok(condition)
    }

    /// Parse an if statement.
    /// May contain nested if/else statements.
    pub(super) fn parse_if_statement(&mut self) -> (r: CompileResult<Statement>)
        ensures
            final(self).follows(old(self), r is Ok),
            final(self).halted(r),
            outcome(r, final(self).position()) == spec_if_statement(
                old(self).tokens(),
                old(self).position(),
            ),
        decreases old(self).remaining(), 10int,
    {
        proof {
            lemma_if_statement(self.tokens(), self.position());
        }
        let first = self.mark();
        self.consume(TokenType::If)?;
        let condition = self.parse_condition()?;
        let then_branch = self.parse_block_statement()?;
        if self.match_peek(&TokenType::Else) {
            self.advance();
            let else_branch = if self.match_peek(&TokenType::If) {
                self.parse_if_statement()?
            } else {
                self.parse_block_statement()?
            };
            Ok(
                Statement::If {
                    condition,
                    then_branch: Box::new(then_branch),
                    else_branch: Some(Box::new(else_branch)),
                    span: self.span_from(first),
                },
            )
        } else {
            Ok(
                Statement::If {
                    condition,
                    then_branch: Box::new(then_branch),
                    else_branch: None,
                    span: self.span_from(first),
                },
            )
        }
    }

    /// Parse a for statement.
    /// for (let i: int = 0; i < 10; i += 1) { ... }
    pub(super) fn parse_for_statement(&mut self) -> (r: CompileResult<Statement>)
        ensures
            final(self).follows(old(self), r is Ok),
            final(self).halted(r),
            outcome(r, final(self).position()) == spec_for_statement(
                old(self).tokens(),
                old(self).position(),
            ),
        decreases old(self).remaining(), 10int,
    {
        proof {
            lemma_for_statement(self.tokens(), self.position());
        }
        let first = self.mark();
        self.consume(TokenType::For)?;
        self.consume(TokenType::LeftParen)?;
        let init = if self.match_peek(&TokenType::Let) {
            self.parse_variable_declaration()?
        } else {
            self.parse_simple_statement(true)?
        };
        let condition = self.parse_expression(Precedence::Lowest)?;
        self.consume(TokenType::Semicolon)?;
        let increment = self.parse_simple_statement(false)?;
        self.consume(TokenType::RightParen)?;
        let body = self.parse_block()?;
        Ok(
            Statement::For {
                init: Box::new(init),
                condition,
                increment: Box::new(increment),
                body,
                span: self.span_from(first),
            },
        )
    }

    /// Parse a while statement.
    /// while (i < 10) { ... }
    pub(super) fn parse_while_statement(&mut self) -> (r: CompileResult<Statement>)
        ensures
            final(self).follows(old(self), r is Ok),
            final(self).halted(r),
            outcome(r, final(self).position()) == spec_while_statement(
                old(self).tokens(),
                old(self).position(),
            ),
        decreases old(self).remaining(), 10int,
    {
        proof {
            lemma_while_statement(self.tokens(), self.position());
        }
        let first = self.mark();
        self.consume(TokenType::While)?;
        let condition = self.parse_condition()?;
        let body = self.parse_block()?;
        Ok(Statement::While { condition, body, span: self.span_from(first) })
    }

    /// Parse a do until statement.
    /// do { ... } until (i >= 10);
    pub(super) fn parse_do_until_statement(&mut self) -> (r: CompileResult<Statement>)
        ensures
            final(self).follows(old(self), r is Ok),
            final(self).halted(r),
            outcome(r, final(self).position()) == spec_do_until_statement(
                old(self).tokens(),
                old(self).position(),
            ),
        decreases old(self).remaining(), 10int,
    {
        proof {
            lemma_do_until_statement(self.tokens(), self.position());
        }
        let first = self.mark();
        self.consume(TokenType::Do)?;
        let body = self.parse_block_statement()?;
        self.consume(TokenType::Until)?;
        let condition = self.parse_condition()?;
        self.consume(TokenType::Semicolon)?;
        Ok(Statement::DoUntil { condition, body: Box::new(body), span: self.span_from(first) })
    }

    /// Parse a return statement.
    /// return 1;
    pub(super) fn parse_return_statement(&mut self) -> (r: CompileResult<Statement>)
        ensures
            final(self).follows(old(self), r is Ok),
            final(self).halted(r),
            outcome(r, final(self).position()) == spec_return_statement(
                old(self).tokens(),
                old(self).position(),
            ),
        decreases old(self).remaining(), 10int,
    {
        proof {
            lemma_return_statement(self.tokens(), self.position());
        }
        let first = self.mark();
        self.consume(TokenType::Return)?;
        let value = if self.match_peek(&TokenType::Semicolon) {
            None
        } else {
            Some(self.parse_expression(Precedence::Lowest)?)
        };
        self.consume(TokenType::Semicolon)?;
        Ok(Statement::Return { value, span: self.span_from(first) })
    }

    /// Parse an assignment or an expression statement, with its `;` when
    /// `terminated`.
    /// i.e. `a = 1;`, `1 + 1;`
    pub(super) fn parse_simple_statement(&mut self, terminated: bool) -> (r: CompileResult<Statement>)
        ensures
            final(self).follows(old(self), r is Ok),
            final(self).halted(r),
            outcome(r, final(self).position()) == spec_simple_statement(
                old(self).tokens(),
                old(self).position(),
                terminated,
            ),
        decreases old(self).remaining(), 9int,
    {
        proof {
            lemma_simple_statement(self.tokens(), self.position(), terminated);
        }
        let first = self.mark();
        let expression = self.parse_expression(Precedence::Lowest)?;
        match expression {
            Expression::Identifier { ident } if self.match_peek(&TokenType::Equal) => {
                self.advance();
                let value = self.parse_expression(Precedence::Lowest)?;
                self.parse_terminator(terminated)?;
                Ok(Statement::Assign { ident, value, span: self.span_from(first) })
            },
            expression => {
                self.parse_terminator(terminated)?;
                Ok(Statement::Expression { expression, span: self.span_from(first) })
            },
        }
    }
}

} // verus!
