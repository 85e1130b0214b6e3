//! Expressions, by precedence climbing.

use super::grammar::{
    spec_argument_list, spec_arguments, spec_expression, spec_operators, spec_postfix,
    spec_postfix_operators, spec_primary, spec_unary,
};
use super::{
    after, assign_operator, binary_operator, lemma_after_empty, lemma_after_last, lemma_after_push,
    lemma_push_expression, outcome, Parser,
};
use crate::ast::{
    expressions_view, lemma_call_view, Expression, PostfixOperator, PrefixOperator, SpecExpression,
    UnaryOperator,
};
use super::terminals::Parse;
use super::unfold::{
    lemma_argument_list, lemma_arguments, lemma_expression, lemma_operators, lemma_postfix,
    lemma_postfix_operators, lemma_primary, lemma_unary,
};
use crate::error::{CompileResult, SpecCompileError};
use crate::lexer::tokens::TokenType;
use crate::precedence::{precedence_of_binary_operator, Precedence};
use vstd::prelude::*;

verus! {

broadcast use super::terminals::group_leaves_advance;

impl Parser {
    /// Parse an expression whose operators all bind at least as tightly as
    /// `min`.
    /// i.e. `1 + 2 * 3`
    pub(super) fn parse_expression(&mut self, min: Precedence) -> (r: CompileResult<Expression>)
        ensures
            final(self).follows(old(self), r is Ok),
            final(self).halted(r),
            outcome(r, final(self).position()) == spec_expression(
                old(self).tokens(),
                old(self).position(),
                min,
            ),
        decreases old(self).remaining(), 8int,
    {
        proof {
            lemma_expression(self.tokens(), self.position(), min);
        }
        let ghost t = self.tokens();
        let ghost start = self.position();
        let mut left = self.parse_unary()?;
        loop
            invariant
                                t == self.tokens(),
                start == old(self).position(),
                self.follows(old(self), true),
                spec_expression(t, start, min) == spec_operators(t, self.position(), left@, min),
            decreases self.remaining(),
        {
            proof {
                lemma_operators(t, self.position(), left@, min);
            }
            let binary = match self.peek() {
                Some(kind) => binary_operator(kind),
                None => None,
            };
            let assign = match self.peek() {
                Some(kind) => assign_operator(kind),
                None => None,
            };
            if binary.is_some() && precedence_of_binary_operator(binary.unwrap()).rank()
                >= min.rank() {
                let operator = binary.unwrap();
                self.advance();
                let right = self.parse_expression(
                    precedence_of_binary_operator(operator).tighter(),
                )?;
                left = Expression::Binary { left: Box::new(left), operator, right: Box::new(right) };
            } else if assign.is_some() && Precedence::Assign.rank() >= min.rank() {
                let operator = assign.unwrap();
                self.advance();
                let right = self.parse_expression(Precedence::Assign)?;
                left = Expression::Assign { left: Box::new(left), operator, right: Box::new(right) };
            } else {
                return Ok(left);
            }
        }
    }

    /// Parse a unary expression: prefix operators, then a postfix expression.
    /// i.e. `-1`
    pub(super) fn parse_unary(&mut self) -> (r: CompileResult<Expression>)
        ensures
            final(self).follows(old(self), r is Ok),
            final(self).halted(r),
            outcome(r, final(self).position()) == spec_unary(old(self).tokens(), old(self).position()),
        decreases old(self).remaining(), 7int,
    {
        proof {
            lemma_unary(self.tokens(), self.position());
        }
        match self.peek() {
            Some(TokenType::Minus) => {
                self.advance();
                let right = self.parse_unary()?;
                Ok(Expression::Unary { operator: UnaryOperator::Minus, right: Box::new(right) })
            },
            Some(TokenType::Bang) => {
                self.advance();
                let right = self.parse_unary()?;
                Ok(Expression::Unary { operator: UnaryOperator::Bang, right: Box::new(right) })
            },
            Some(TokenType::PlusPlus) => {
                self.advance();
                let right = self.parse_unary()?;
                Ok(Expression::Prefix { operator: PrefixOperator::PlusPlus, right: Box::new(right) })
            },
            Some(TokenType::MinusMinus) => {
                self.advance();
                let right = self.parse_unary()?;
                Ok(
                    Expression::Prefix {
                        operator: PrefixOperator::MinusMinus,
                        right: Box::new(right),
                    },
                )
            },
            _ => self.parse_postfix(),
        }
    }

    /// Parse a primary expression and the postfix operators and calls after
    /// it.
    /// i.e. `f(1)++`
    pub(super) fn parse_postfix(&mut self) -> (r: CompileResult<Expression>)
        ensures
            final(self).follows(old(self), r is Ok),
            final(self).halted(r),
            outcome(r, final(self).position()) == spec_postfix(
                old(self).tokens(),
                old(self).position(),
            ),
        decreases old(self).remaining(), 6int,
    {
        proof {
            lemma_postfix(self.tokens(), self.position());
        }
        let ghost t = self.tokens();
        let ghost start = self.position();
        let mut left = self.parse_primary()?;
        loop
            invariant
                                t == self.tokens(),
                start == old(self).position(),
                self.follows(old(self), true),
                spec_postfix(t, start) == spec_postfix_operators(t, self.position(), left@),
            decreases self.remaining(),
        {
            proof {
                lemma_postfix_operators(t, self.position(), left@);
            }
            match self.peek() {
                Some(TokenType::PlusPlus) => {
                    self.advance();
                    left = Expression::Postfix {
                        left: Box::new(left),
                        operator: PostfixOperator::PlusPlus,
                    };
                },
                Some(TokenType::MinusMinus) => {
                    self.advance();
                    left = Expression::Postfix {
                        left: Box::new(left),
                        operator: PostfixOperator::MinusMinus,
                    };
                },
                Some(TokenType::LeftParen) => {
                    self.advance();
                    let arguments = self.parse_arguments()?;
                    let callee = Box::new(left);
                    proof {
                        lemma_call_view(callee, arguments);
                    }
                    left = Expression::Call { callee, arguments };
                },
                _ => {
                    return Ok(left);
                },
            }
        }
    }

    /// Parse the arguments of a call, from after its `(` through its `)`.
    pub(super) fn parse_arguments(&mut self) -> (r: CompileResult<Vec<Expression>>)
        ensures
            final(self).follows(old(self), r is Ok),
            final(self).halted(r),
            match r {
                Ok(arguments) => spec_arguments(old(self).tokens(), old(self).position()) == Ok::<
                    (Seq<SpecExpression>, int),
                    SpecCompileError,
                >((expressions_view(arguments@), final(self).position())),
                Err(e) => spec_arguments(old(self).tokens(), old(self).position()) == Err::<
                    (Seq<SpecExpression>, int),
                    SpecCompileError,
                >(e@),
            },
        decreases old(self).remaining(), 10int,
    {
        proof {
            lemma_arguments(self.tokens(), self.position());
        }
        let ghost t = self.tokens();
        let ghost start = self.position();
        let mut arguments: Vec<Expression> = Vec::new();
        proof {
            lemma_push_expression(arguments@, arbitrary());
        }
        if self.match_peek(&TokenType::RightParen) {
            self.advance();
            return Ok(arguments);
        }
        proof {
            lemma_after_empty(spec_argument_list(t, self.position()));
        }
        loop
            invariant
                                t == self.tokens(),
                start == old(self).position(),
                self.tokens() == old(self).tokens(),
                start == self.position() || start < self.position() < self.tokens().len(),
                spec_arguments(t, start) == after(
                    expressions_view(arguments@),
                    spec_argument_list(t, self.position()),
                ),
            decreases self.remaining(),
        {
            proof {
                lemma_argument_list(t, self.position());
            }
            let ghost here = self.position();
            let ghost before = expressions_view(arguments@);
            let argument = self.parse_expression(Precedence::Lowest)?;
            proof {
                lemma_push_expression(arguments@, argument);
                lemma_after_last(before, argument@, self.position() + 1);
            }
            arguments.push(argument);
            if self.match_peek(&TokenType::RightParen) {
                self.advance();
                return Ok(arguments);
            }
            self.consume(TokenType::Comma)?;
            proof {
                let rest = spec_argument_list(t, self.position());
                assert(spec_argument_list(t, here) == after(seq![argument@], rest));
                lemma_after_push(before, argument@, rest);
            }
        }
    }

    /// Parse a primary expression.
    /// Can be a literal, a name, a parenthesized expression, or a function
    /// literal.
    /// i.e. `1`, `(1 + 1)`, `foo`
    pub(super) fn parse_primary(&mut self) -> (r: CompileResult<Expression>)
        ensures
            final(self).follows(old(self), r is Ok),
            final(self).halted(r),
            outcome(r, final(self).position()) == spec_primary(
                old(self).tokens(),
                old(self).position(),
            ),
        decreases old(self).remaining(), 5int,
    {
        proof {
            lemma_primary(self.tokens(), self.position());
        }
        match self.peek() {
            Some(TokenType::IntegerLiteral(x)) => {
                let value = *x;
                self.advance();
                Ok(Expression::IntegerLiteral { value })
            },
            Some(TokenType::FloatLiteral(x)) => {
                let value = x.clone();
                self.advance();
                Ok(Expression::FloatLiteral { value })
            },
            Some(TokenType::StringLiteral(x)) => {
                let value = x.clone();
                self.advance();
                Ok(Expression::StringLiteral { value })
            },
            Some(TokenType::True) => {
                self.advance();
                Ok(Expression::BooleanLiteral { value: true })
            },
            Some(TokenType::False) => {
                self.advance();
                Ok(Expression::BooleanLiteral { value: false })
            },
            Some(TokenType::Null) => {
                self.advance();
                Ok(Expression::NullLiteral)
            },
            Some(TokenType::Ident(x)) => {
                let ident = x.clone();
                self.advance();
                Ok(Expression::Identifier { ident })
            },
            Some(TokenType::LeftParen) => {
                self.advance();
                let inner = self.parse_expression(Precedence::Lowest)?;
                self.consume(TokenType::RightParen)?;
                Ok(Expression::Grouping { expression: Box::new(inner) })
            },
            Some(TokenType::Function) => {
                self.advance();
                let (params, return_type) = self.parse_signature()?;
                let body = self.parse_block()?;
                Ok(Expression::Function { params, return_type, body })
            },
            _ => Err(self.unexpected("primary expression")),
        }
    }
}

} // verus!
