//! The parser: tokens to an abstract syntax tree.
//!
//! `grammar` states what every token sequence parses to.  The parser here is
//! recursive descent for statements and precedence climbing for expressions,
//! and is proved to return exactly what the grammar states.  `laws` and
//! `grouping` state what holds of the grammar for every token sequence.

mod expressions;
pub mod grammar;
pub mod grouping;
pub mod laws;
mod statements;
pub mod terminals;
pub mod unfold;

use crate::ast::{
    expressions_view, functions_view, lemma_parameters_view, lemma_program_view, parameters_view,
    statements_view, AssignOperator, BinaryOperator, Expression, Function, Parameter, Parameters,
    Program, SpecExpression, SpecParameter, SpecProgram, SpecStatement, Statement, Type,
};
use crate::error::{CompileError, CompileResult, Span, SpecCompileError};
use crate::lexer::tokens::{SpecToken, Token, TokenType};
use grammar::{
    spec_function, spec_functions, spec_parameter_list, spec_parameters, spec_parse_from,
    spec_signature,
};
use grouping::{lemma_functions_grouped, program_grouped};
use terminals::{
    assign_operator_of, binary_operator_of, covering, expect, kind_at, span_at, spec_annotation,
    spec_ident, spec_parameter, spec_terminator, spec_type, unexpected, Parse,
};
use vstd::prelude::*;
use vstd::string::StringExecFns;

verus! {

broadcast use terminals::group_leaves_advance;

/// A parser over a token sequence, with the position of the next token.
pub struct Parser {
    tokens: Vec<Token>,
    current: usize,
}

/// The mathematical value of a parse step that ended at `next`.
pub open spec fn outcome<T: View>(r: CompileResult<T>, next: int) -> Parse<T::V> {
    match r {
        Ok(v) => Ok((v@, next)),
        Err(e) => Err(e@),
    }
}

/// As `outcome`, for a result that is its own mathematical value.
pub open spec fn plain_outcome<T>(r: CompileResult<T>, next: int) -> Parse<T> {
    match r {
        Ok(v) => Ok((v, next)),
        Err(e) => Err(e@),
    }
}

/// The mathematical value of what `parse` returns.
pub open spec fn parsed(r: CompileResult<Program>) -> Result<SpecProgram, SpecCompileError> {
    match r {
        Ok(p) => Ok(p@),
        Err(e) => Err(e@),
    }
}

/// The items `acc`, followed by the items that `r` holds.
pub(super) open spec fn after<T>(acc: Seq<T>, r: Parse<Seq<T>>) -> Parse<Seq<T>> {
    match r {
        Ok((rest, end)) => Ok((acc + rest, end)),
        Err(e) => Err(e),
    }
}

pub(super) proof fn lemma_after_push<T>(acc: Seq<T>, x: T, r: Parse<Seq<T>>)
    ensures
        after(acc, after(seq![x], r)) == after(acc.push(x), r),
{
    match r {
        Ok((rest, end)) => {
            assert(acc + (seq![x] + rest) =~= acc.push(x) + rest);
        },
        Err(_) => {},
    }
}

pub(super) proof fn lemma_after_last<T>(acc: Seq<T>, x: T, end: int)
    ensures
        after(acc, Ok((seq![x], end))) == Ok::<(Seq<T>, int), SpecCompileError>((acc.push(x), end)),
        after(Seq::<T>::empty(), Ok((acc, end))) == Ok::<(Seq<T>, int), SpecCompileError>(
            (acc, end),
        ),
        after(acc, Ok((Seq::<T>::empty(), end))) == Ok::<(Seq<T>, int), SpecCompileError>(
            (acc, end),
        ),
{
    assert(acc + seq![x] =~= acc.push(x));
    assert(Seq::<T>::empty() + acc =~= acc);
    assert(acc + Seq::<T>::empty() =~= acc);
}

pub(super) proof fn lemma_after_empty<T>(r: Parse<Seq<T>>)
    ensures
        after(Seq::<T>::empty(), r) == r,
{
    match r {
        Ok((rest, end)) => {
            assert(Seq::<T>::empty() + rest =~= rest);
        },
        Err(_) => {},
    }
}

pub(super) proof fn lemma_push_parameter(v: Seq<Parameter>, x: Parameter)
    ensures
        parameters_view(v.push(x)) == parameters_view(v).push(x@),
        parameters_view(Seq::<Parameter>::empty()) == Seq::<SpecParameter>::empty(),
{
    assert(parameters_view(v.push(x)) =~= parameters_view(v).push(x@));
    assert(parameters_view(Seq::<Parameter>::empty()) =~= Seq::<SpecParameter>::empty());
}

pub(super) proof fn lemma_push_expression(v: Seq<Expression>, x: Expression)
    ensures
        expressions_view(v.push(x)) == expressions_view(v).push(x@),
        expressions_view(Seq::<Expression>::empty()) == Seq::<SpecExpression>::empty(),
{
    assert(expressions_view(v.push(x)) =~= expressions_view(v).push(x@));
    assert(expressions_view(Seq::<Expression>::empty()) =~= Seq::<SpecExpression>::empty());
}

pub(super) proof fn lemma_push_statement(v: Seq<Statement>, x: Statement)
    ensures
        statements_view(v.push(x)) == statements_view(v).push(x@),
        statements_view(Seq::<Statement>::empty()) == Seq::<SpecStatement>::empty(),
{
    assert(statements_view(v.push(x)) =~= statements_view(v).push(x@));
    assert(statements_view(Seq::<Statement>::empty()) =~= Seq::<SpecStatement>::empty());
}

pub(super) proof fn lemma_push_function(v: Seq<Function>, x: Function)
    ensures
        functions_view(v.push(x)) == functions_view(v).push(x@),
        functions_view(Seq::<Function>::empty()) == Seq::<crate::ast::SpecFunction>::empty(),
{
    assert(functions_view(v.push(x)) =~= functions_view(v).push(x@));
    assert(functions_view(Seq::<Function>::empty())
        =~= Seq::<crate::ast::SpecFunction>::empty());
}

/// The binary operator that a token writes.
pub(super) fn binary_operator(kind: &TokenType) -> (r: Option<BinaryOperator>)
    ensures
        r == binary_operator_of(kind@),
{
    match kind {
        TokenType::Plus => Some(BinaryOperator::Plus),
        TokenType::Minus => Some(BinaryOperator::Minus),
        TokenType::Star => Some(BinaryOperator::Star),
        TokenType::Slash => Some(BinaryOperator::Slash),
        TokenType::StarStar => Some(BinaryOperator::StarStar),
        TokenType::SlashSlash => Some(BinaryOperator::SlashSlash),
        TokenType::EqualEqual => Some(BinaryOperator::EqualEqual),
        TokenType::BangEqual => Some(BinaryOperator::BangEqual),
        TokenType::Greater => Some(BinaryOperator::Greater),
        TokenType::GreaterEqual => Some(BinaryOperator::GreaterEqual),
        TokenType::Less => Some(BinaryOperator::Less),
        TokenType::LessEqual => Some(BinaryOperator::LessEqual),
        TokenType::Or => Some(BinaryOperator::Or),
        TokenType::And => Some(BinaryOperator::And),
        _ => None,
    }
}

/// The compound assignment operator that a token writes.
pub(super) fn assign_operator(kind: &TokenType) -> (r: Option<AssignOperator>)
    ensures
        r == assign_operator_of(kind@),
{
    match kind {
        TokenType::PlusEqual => Some(AssignOperator::PlusEqual),
        TokenType::MinusEqual => Some(AssignOperator::MinusEqual),
        TokenType::StarEqual => Some(AssignOperator::StarEqual),
        TokenType::SlashEqual => Some(AssignOperator::SlashEqual),
        _ => None,
    }
}

impl Parser {
    /// The tokens that the parser reads.
    pub closed spec fn tokens(&self) -> Seq<SpecToken> {
        self.tokens.deep_view()
    }

    /// The position of the next token.
    pub closed spec fn position(&self) -> int {
        self.current as int
    }

    /// How many tokens lie at and after the position.
    pub open spec fn remaining(&self) -> int {
        self.tokens().len() - self.position()
    }

    /// Whether the step from `before` to `self` kept the tokens and, where
    /// it succeeded, moved forward to a place before the end mark.  A step
    /// that failed did not move back.
    pub open spec fn follows(&self, before: &Parser, ok: bool) -> bool {
        &&& self.tokens() == before.tokens()
        &&& ok ==> before.position() < self.position() < self.tokens().len()
        &&& !ok ==> before.position() <= self.position()
    }

    /// Whether a step that failed left the parser at the token whose span
    /// its error carries.  Of a step that succeeded this says nothing.
    pub open spec fn halted<T>(&self, r: CompileResult<T>) -> bool {
        r matches Err(e) ==> e@ == SpecCompileError::SyntaxError(
            e@->SyntaxError_0,
            span_at(self.tokens(), self.position()),
        )
    }

    /// A parser at the first of `tokens`.  The last token is read as the end
    /// mark, whatever it is.
    pub fn new(tokens: Vec<Token>) -> (p: Self)
        ensures
            p.tokens() == tokens.deep_view(),
            p.position() == 0,
    {
        Self { tokens, current: 0 }
    }

    /// The kind of the next token, or `None` at the end mark.
    pub(super) fn peek(&self) -> (k: Option<&TokenType>)
        ensures
            match k {
                Some(kind) => kind@ == kind_at(self.tokens(), self.position()) && !(kind@ is Eof),
                None => kind_at(self.tokens(), self.position()) is Eof,
            },
    {
        if self.tokens.len() > 0 && self.current < self.tokens.len() - 1 {
            let kind = &self.tokens[self.current].token_type;
            if matches!(kind, TokenType::Eof) {
                None
            } else {
                Some(kind)
            }
        } else {
            None
        }
    }

    /// The position of the next token.
    pub(super) fn mark(&self) -> (first: usize)
        ensures
            first == self.position(),
    {
        self.current
    }

    /// Steps over the next token, which is not the end mark.
    pub(super) fn advance(&mut self)
        requires
            !(kind_at(old(self).tokens(), old(self).position()) is Eof),
        ensures
            final(self).tokens() == old(self).tokens(),
            final(self).position() == old(self).position() + 1,
            final(self).position() < final(self).tokens().len(),
    {
        assert(self.tokens.deep_view().len() == self.tokens.len());
        self.current += 1;
    }

    pub(super) fn is_at_end(&self) -> (r: bool)
        ensures
            r == (kind_at(self.tokens(), self.position()) is Eof),
    {
        self.peek().is_none()
    }

    /// Match the current token with the given token type.
    /// Does not advance.
    pub(super) fn match_peek(&self, token_type: &TokenType) -> (r: bool)
        ensures
            r == (kind_at(self.tokens(), self.position()) == token_type@ && !(token_type@ is Eof)),
    {
        match self.peek() {
            Some(kind) => kind.same_as(token_type),
            None => false,
        }
    }

    /// The span of the next token.
    pub(super) fn span_here(&self) -> (s: Span)
        ensures
            s == span_at(self.tokens(), self.position()),
    {
        if self.current < self.tokens.len() {
            self.tokens[self.current].span
        } else {
            Span { start: 0, end: 0 }
        }
    }

    /// The span from the token at `first` to the token before the next one.
    pub(super) fn span_from(&self, first: usize) -> (s: Span)
        requires
            first < self.position() <= self.tokens().len(),
        ensures
            s == covering(self.tokens(), first as int, self.position()),
    {
        reveal(covering);
        Span { start: self.tokens[first].span.start, end: self.tokens[self.current - 1].span.end }
    }

    /// The error for a next token that is not what the grammar wants.
    pub(super) fn unexpected(&self, wanted: &str) -> (e: CompileError)
        ensures
            e@ == unexpected(self.tokens(), self.position(), wanted@),
            self.halted(Err::<(), CompileError>(e)),
    {
        reveal(unexpected);
        let mut message = String::from_str("Expected ");
        message.append(wanted);
        message.append(", got ");
        match self.peek() {
            Some(kind) => {
                let found = kind.to_string();
                message.append(found.as_str());
            },
            None => {
                message.append("EOF");
            },
        }
        CompileError::SyntaxError(message, self.span_here())
    }

    /// Match the current token with the given token type.
    /// If the current token is not the given token type, return an error
    /// and stay at it.  Otherwise, advance past it.
    pub(super) fn consume(&mut self, token_type: TokenType) -> (r: CompileResult<()>)
        ensures
            final(self).follows(old(self), r is Ok),
            final(self).halted(r),
            r is Err ==> final(self).position() == old(self).position(),
            match expect(old(self).tokens(), old(self).position(), token_type@) {
                Ok(next) => r is Ok && final(self).position() == next,
                Err(e) => r is Err && r->Err_0@ == e,
            },
    {
        reveal(expect);
        if self.match_peek(&token_type) {
            self.advance();
            Ok(())
        } else {
            let mut wanted = String::from_str("token ");
            let lexeme = token_type.to_string();
            wanted.append(lexeme.as_str());
            Err(self.unexpected(wanted.as_str()))
        }
    }

    /// Parse an ident.
    /// i.e. `foo`
    /// A token that is no ident is an error, and the parser stays at it.
    pub(super) fn parse_ident(&mut self) -> (r: CompileResult<String>)
        ensures
            final(self).follows(old(self), r is Ok),
            final(self).halted(r),
            r is Err ==> final(self).position() == old(self).position(),
            outcome(r, final(self).position()) == spec_ident(old(self).tokens(), old(self).position()),
    {
        reveal(spec_ident);
        match self.peek() {
            Some(TokenType::Ident(name)) => {
                let ident = name.clone();
                self.advance();
                Ok(ident)
            },
            _ => Err(self.unexpected("ident")),
        }
    }

    /// Parse a type.
    /// i.e. `int`
    /// A token that names no type is an error, and the parser stays at it.
    pub(super) fn parse_type(&mut self) -> (r: CompileResult<Type>)
        ensures
            final(self).follows(old(self), r is Ok),
            final(self).halted(r),
            r is Err ==> final(self).position() == old(self).position(),
            plain_outcome(r, final(self).position()) == spec_type(
                old(self).tokens(),
                old(self).position(),
            ),
    {
        reveal(spec_type);
        let parsed = match self.peek() {
            Some(TokenType::Int) => Type::Int,
            Some(TokenType::Float) => Type::Float,
            Some(TokenType::String) => Type::String,
            Some(TokenType::Bool) => Type::Bool,
            Some(TokenType::Null) => Type::Null,
            Some(TokenType::Void) => Type::Void,
            _ => {
                return Err(self.unexpected("type"));
            },
        };
        self.advance();
        Ok(parsed)
    }

    /// Parse a type annotation, if there is one.
    /// i.e. `: int`
    pub(super) fn parse_annotation(&mut self) -> (r: CompileResult<Option<Type>>)
        ensures
            final(self).tokens() == old(self).tokens(),
            final(self).halted(r),
            r is Err ==> old(self).position() <= final(self).position(),
            r is Ok ==> old(self).position() <= final(self).position() < final(self).tokens().len()
                || old(self).position() == final(self).position(),
            plain_outcome(r, final(self).position()) == spec_annotation(
                old(self).tokens(),
                old(self).position(),
            ),
    {
        reveal(spec_annotation);
        if self.match_peek(&TokenType::Colon) {
            self.advance();
            Ok(Some(self.parse_type()?))
        } else {
            Ok(None)
        }
    }

    /// Take the `;` that ends a statement, when the statement is
    /// `terminated`.
    pub(super) fn parse_terminator(&mut self, terminated: bool) -> (r: CompileResult<()>)
        ensures
            final(self).tokens() == old(self).tokens(),
            final(self).halted(r),
            r is Err ==> final(self).position() == old(self).position(),
            r is Ok ==> old(self).position() == final(self).position() || (old(self).position()
                < final(self).position() < final(self).tokens().len()),
            match spec_terminator(old(self).tokens(), old(self).position(), terminated) {
                Ok(next) => r is Ok && final(self).position() == next,
                Err(e) => r is Err && r->Err_0@ == e,
            },
    {
        reveal(spec_terminator);
        if terminated {
            self.consume(TokenType::Semicolon)
        } else {
            Ok(())
        }
    }

    /// Parse one parameter.
    /// i.e. `a: int`
    pub(super) fn parse_parameter(&mut self) -> (r: CompileResult<Parameter>)
        ensures
            final(self).follows(old(self), r is Ok),
            final(self).halted(r),
            outcome(r, final(self).position()) == spec_parameter(
                old(self).tokens(),
                old(self).position(),
            ),
    {
        reveal(spec_parameter);
        let ident = self.parse_ident()?;
        self.consume(TokenType::Colon)?;
        let param_type = self.parse_type()?;
        Ok(Parameter { ident, param_type })
    }

    /// Parse a list of parameters.
    /// i.e. `(a: int, b: int)`
    pub(super) fn parse_parameters(&mut self) -> (r: CompileResult<Parameters>)
        ensures
            final(self).follows(old(self), r is Ok),
            final(self).halted(r),
            outcome(r, final(self).position()) == spec_parameters(
                old(self).tokens(),
                old(self).position(),
            ),
    {
        reveal(spec_parameters);
        reveal(spec_parameter_list);
        let ghost t = self.tokens();
        let ghost start = self.position();
        self.consume(TokenType::LeftParen)?;
        let mut params: Vec<Parameter> = Vec::new();
        proof {
            lemma_push_parameter(params@, arbitrary());
        }
        if self.match_peek(&TokenType::RightParen) {
            self.advance();
            let list = Parameters { params };
            proof {
                lemma_parameters_view(list);
            }
            return Ok(list);
        }
        proof {
            lemma_after_empty(spec_parameter_list(t, self.position()));
        }
        loop
            invariant
                self.tokens() == old(self).tokens(),
                t == self.tokens(),
                start < self.position() < self.tokens().len(),
                start == old(self).position(),
                spec_parameters(t, start) == after(
                    parameters_view(params@),
                    spec_parameter_list(t, self.position()),
                ),
            decreases self.remaining(),
        {
            reveal(spec_parameter_list);
            let ghost here = self.position();
            let ghost before = parameters_view(params@);
            let param = self.parse_parameter()?;
            proof {
                lemma_push_parameter(params@, param);
                lemma_after_last(before, param@, self.position() + 1);
            }
            params.push(param);
            if self.match_peek(&TokenType::RightParen) {
                self.advance();
                let list = Parameters { params };
                proof {
                    lemma_parameters_view(list);
                }
                return Ok(list);
            }
            self.consume(TokenType::Comma)?;
            proof {
                let rest = spec_parameter_list(t, self.position());
                assert(spec_parameter_list(t, here) == after(seq![param@], rest));
                lemma_after_push(before, param@, rest);
            }
        }
    }

    /// Parse a parameter list, `:` and a return type.
    pub(super) fn parse_signature(&mut self) -> (r: CompileResult<(Parameters, Type)>)
        ensures
            final(self).follows(old(self), r is Ok),
            final(self).halted(r),
            match r {
                Ok((params, return_type)) => spec_signature(
                    old(self).tokens(),
                    old(self).position(),
                ) == Ok::<((Seq<SpecParameter>, Type), int), SpecCompileError>(
                    ((params@, return_type), final(self).position()),
                ),
                Err(e) => spec_signature(old(self).tokens(), old(self).position()) == Err::<
                    ((Seq<SpecParameter>, Type), int),
                    SpecCompileError,
                >(e@),
            },
    {
        reveal(spec_signature);
        let params = self.parse_parameters()?;
        self.consume(TokenType::Colon)?;
        let return_type = self.parse_type()?;
        Ok((params, return_type))
    }

    /// Parse a function.
    /// i.e. `func add(a: int, b: int): int { return a + b; }`
    fn parse_function(&mut self) -> (r: CompileResult<Function>)
        ensures
            final(self).follows(old(self), r is Ok),
            final(self).halted(r),
            outcome(r, final(self).position()) == spec_function(
                old(self).tokens(),
                old(self).position(),
            ),
    {
        reveal(spec_function);
        let first = self.mark();
        self.consume(TokenType::Function)?;
        let ident = self.parse_ident()?;
        let (params, return_type) = self.parse_signature()?;
        let span = self.span_from(first);
        let body = self.parse_block()?;
        Ok(Function { ident, params, return_type, body, span })
    }

    /// Parse a program: the functions from the parser's position up to the
    /// end mark.  The first token that the grammar cannot take ends the parse
    /// with a syntax error that carries that token's span, and the parser
    /// stays at that token; no partial program is returned.  After a success
    /// the parser stands at the end mark, and every expression of the program
    /// is grouped as the precedence table says.
    pub fn parse(&mut self) -> (r: CompileResult<Program>)
        ensures
            final(self).tokens() == old(self).tokens(),
            final(self).halted(r),
            r is Err ==> old(self).position() <= final(self).position(),
            r is Ok ==> kind_at(final(self).tokens(), final(self).position()) is Eof,
            r matches Ok(program) ==> program_grouped(program@),
            parsed(r) == spec_parse_from(old(self).tokens(), old(self).position()),
    {
        reveal(spec_functions);
        let ghost t = self.tokens();
        let ghost start = self.position();
        let mut functions: Vec<Function> = Vec::new();
        proof {
            lemma_push_function(functions@, arbitrary());
        }
        while !self.is_at_end()
            invariant
                self.tokens() == old(self).tokens(),
                t == self.tokens(),
                start == old(self).position(),
                start <= self.position(),
                match spec_functions(t, self.position()) {
                    Ok(rest) => spec_functions(t, start) == Ok::<
                        Seq<crate::ast::SpecFunction>,
                        SpecCompileError,
                    >(functions_view(functions@) + rest),
                    Err(e) => spec_functions(t, start) == Err::<
                        Seq<crate::ast::SpecFunction>,
                        SpecCompileError,
                    >(e),
                },
            decreases self.remaining(),
        {
            reveal(spec_functions);
            let ghost before = functions_view(functions@);
            let function = self.parse_function()?;
            proof {
                lemma_push_function(functions@, function);
                match spec_functions(t, self.position()) {
                    Ok(rest) => {
                        assert(before + (seq![function@] + rest) =~= before.push(function@) + rest);
                    },
                    Err(_) => {},
                }
            }
            functions.push(function);
        }
        let program = Program { functions };
        proof {
            lemma_functions_grouped(t, start);
            lemma_program_view(program);
            assert(functions_view(program.functions@) + Seq::empty() =~= functions_view(
                program.functions@,
            ));
        }
        Ok(program)
    }
}

} // verus!
