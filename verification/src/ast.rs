//! The abstract syntax tree, and its mathematical value.
//!
//! Every tree type has a view: the same tree with strings as sequences of
//! characters and vectors as sequences.  The grammar and the lowering rules
//! are stated over views.

use crate::error::Span;
use vstd::prelude::*;

verus! {

/// A compilation unit: functions in source order.
#[derive(Debug, PartialEq)]
pub struct Program {
    pub functions: Vec<Function>,
}

/// A named function.
#[derive(Debug, PartialEq)]
pub struct Function {
    pub ident: String,
    pub params: Parameters,
    pub return_type: Type,
    pub body: Block,
    /// The function's header, from `func` to its return type.
    pub span: Span,
}

/// The parameters of a function, in order.
#[derive(Debug, Clone, PartialEq)]
pub struct Parameters {
    pub params: Vec<Parameter>,
}

/// A parameter: a name and its declared type.
#[derive(Debug, Clone, PartialEq)]
pub struct Parameter {
    pub ident: String,
    pub param_type: Type,
}

/// Statements in execution order; a block is a lexical scope.
#[derive(Debug, PartialEq)]
pub struct Block {
    pub statements: Vec<Statement>,
}

/// A statement.  `span` runs from its first token to its last.
#[derive(Debug, PartialEq)]
pub enum Statement {
    /// `let x: int = 1;`
    VariableDeclaration { ident: String, var_type: Option<Type>, value: Expression, span: Span },
    /// `x = 1;`
    Assign { ident: String, value: Expression, span: Span },
    /// `return 1;`
    Return { value: Option<Expression>, span: Span },
    /// `{ ... }`
    Block { block: Box<Block>, span: Span },
    /// `if (x) { 1; } else { 2; }`
    If {
        condition: Expression,
        then_branch: Box<Statement>,
        else_branch: Option<Box<Statement>>,
        span: Span,
    },
    /// `while (x) { 1; }`
    While { condition: Expression, body: Block, span: Span },
    /// `1;`
    Expression { expression: Expression, span: Span },
    /// `do { 1; } until (x);`
    DoUntil { condition: Expression, body: Box<Statement>, span: Span },
    /// `for (let i: int = 0; i < 3; i += 1) { 1; }`
    For {
        init: Box<Statement>,
        condition: Expression,
        increment: Box<Statement>,
        body: Block,
        span: Span,
    },
}

/// An expression.
#[derive(Debug, PartialEq)]
pub enum Expression {
    /// `1`
    IntegerLiteral { value: i64 },
    /// `1.0`, held as its digits.
    FloatLiteral { value: String },
    /// `"hello"`
    StringLiteral { value: String },
    /// `true`
    BooleanLiteral { value: bool },
    /// `null`
    NullLiteral,
    /// `x`
    Identifier { ident: String },
    /// `x + 1`
    Binary { left: Box<Expression>, operator: BinaryOperator, right: Box<Expression> },
    /// `-1`
    Unary { operator: UnaryOperator, right: Box<Expression> },
    /// `(1 + 2)`
    Grouping { expression: Box<Expression> },
    /// `func (x: int): int { return x; }`
    Function { params: Parameters, return_type: Type, body: Block },
    /// `f(1, 2)`
    Call { callee: Box<Expression>, arguments: Vec<Expression> },
    /// `x++`
    Postfix { left: Box<Expression>, operator: PostfixOperator },
    /// `--x`
    Prefix { operator: PrefixOperator, right: Box<Expression> },
    /// `x += 1`
    Assign { left: Box<Expression>, operator: AssignOperator, right: Box<Expression> },
}

/// The types of the language.
#[derive(Debug, Clone, Copy, PartialEq, Eq, Structural)]
pub enum Type {
    Int,
    Float,
    Bool,
    String,
    Null,
    /// No value: the return type of a function that returns nothing.
    Void,
}

/// The binary operators.
#[derive(Debug, Clone, Copy, PartialEq, Eq, Structural)]
pub enum BinaryOperator {
    Plus,
    Minus,
    Star,
    Slash,
    StarStar,
    SlashSlash,
    EqualEqual,
    BangEqual,
    Greater,
    GreaterEqual,
    Less,
    LessEqual,
    Or,
    And,
}

/// The unary operators `-` and `!`.
#[derive(Debug, Clone, Copy, PartialEq, Eq, Structural)]
pub enum UnaryOperator {
    Minus,
    Bang,
}

/// The postfix operators `++` and `--`.
#[derive(Debug, Clone, Copy, PartialEq, Eq, Structural)]
pub enum PostfixOperator {
    PlusPlus,
    MinusMinus,
}

/// The prefix operators `++` and `--`.
#[derive(Debug, Clone, Copy, PartialEq, Eq, Structural)]
pub enum PrefixOperator {
    PlusPlus,
    MinusMinus,
}

/// The compound assignment operators.
#[derive(Debug, Clone, Copy, PartialEq, Eq, Structural)]
pub enum AssignOperator {
    PlusEqual,
    MinusEqual,
    StarEqual,
    SlashEqual,
}

/// The mathematical value of a `Program`.
pub struct SpecProgram {
    pub functions: Seq<SpecFunction>,
}

/// The mathematical value of a `Function`.
pub struct SpecFunction {
    pub ident: Seq<char>,
    pub params: Seq<SpecParameter>,
    pub return_type: Type,
    pub body: SpecBlock,
    pub span: Span,
}

/// The mathematical value of a `Parameter`.
pub struct SpecParameter {
    pub ident: Seq<char>,
    pub param_type: Type,
}

/// The mathematical value of a `Block`.
pub struct SpecBlock {
    pub statements: Seq<SpecStatement>,
}

/// The mathematical value of a `Statement`.
pub enum SpecStatement {
    VariableDeclaration { ident: Seq<char>, var_type: Option<Type>, value: SpecExpression, span: Span },
    Assign { ident: Seq<char>, value: SpecExpression, span: Span },
    Return { value: Option<SpecExpression>, span: Span },
    Block { block: Box<SpecBlock>, span: Span },
    If {
        condition: SpecExpression,
        then_branch: Box<SpecStatement>,
        else_branch: Option<Box<SpecStatement>>,
        span: Span,
    },
    While { condition: SpecExpression, body: SpecBlock, span: Span },
    Expression { expression: SpecExpression, span: Span },
    DoUntil { condition: SpecExpression, body: Box<SpecStatement>, span: Span },
    For {
        init: Box<SpecStatement>,
        condition: SpecExpression,
        increment: Box<SpecStatement>,
        body: SpecBlock,
        span: Span,
    },
}

/// The mathematical value of an `Expression`.
pub enum SpecExpression {
    IntegerLiteral { value: i64 },
    FloatLiteral { value: Seq<char> },
    StringLiteral { value: Seq<char> },
    BooleanLiteral { value: bool },
    NullLiteral,
    Identifier { ident: Seq<char> },
    Binary { left: Box<SpecExpression>, operator: BinaryOperator, right: Box<SpecExpression> },
    Unary { operator: UnaryOperator, right: Box<SpecExpression> },
    Grouping { expression: Box<SpecExpression> },
    Function { params: Seq<SpecParameter>, return_type: Type, body: SpecBlock },
    Call { callee: Box<SpecExpression>, arguments: Seq<SpecExpression> },
    Postfix { left: Box<SpecExpression>, operator: PostfixOperator },
    Prefix { operator: PrefixOperator, right: Box<SpecExpression> },
    Assign { left: Box<SpecExpression>, operator: AssignOperator, right: Box<SpecExpression> },
}

impl View for Parameter {
    type V = SpecParameter;

    open spec fn view(&self) -> SpecParameter {
        SpecParameter { ident: self.ident@, param_type: self.param_type }
    }
}

impl View for Parameters {
    type V = Seq<SpecParameter>;

    open spec fn view(&self) -> Seq<SpecParameter> {
        Seq::new(self.params.len() as nat, |i: int| self.params[i]@)
    }
}

/// The mathematical value of an expression.
pub open spec fn expression_view(e: Expression) -> SpecExpression
    decreases e,
{
    match e {
        Expression::IntegerLiteral { value } => SpecExpression::IntegerLiteral { value },
        Expression::FloatLiteral { value } => SpecExpression::FloatLiteral { value: value@ },
        Expression::StringLiteral { value } => SpecExpression::StringLiteral { value: value@ },
        Expression::BooleanLiteral { value } => SpecExpression::BooleanLiteral { value },
        Expression::NullLiteral => SpecExpression::NullLiteral,
        Expression::Identifier { ident } => SpecExpression::Identifier { ident: ident@ },
        Expression::Binary { left, operator, right } => SpecExpression::Binary {
            left: Box::new(expression_view(*left)),
            operator,
            right: Box::new(expression_view(*right)),
        },
        Expression::Unary { operator, right } => SpecExpression::Unary {
            operator,
            right: Box::new(expression_view(*right)),
        },
        Expression::Grouping { expression } => SpecExpression::Grouping {
            expression: Box::new(expression_view(*expression)),
        },
        Expression::Function { params, return_type, body } => SpecExpression::Function {
            params: params@,
            return_type,
            body: block_view(body),
        },
        Expression::Call { callee, arguments } => SpecExpression::Call {
            callee: Box::new(expression_view(*callee)),
            arguments: Seq::new(
                arguments.len() as nat,
                |i: int|
                    if 0 <= i < arguments.len() {
                        expression_view(arguments[i])
                    } else {
                        SpecExpression::NullLiteral
                    },
            ),
        },
        Expression::Postfix { left, operator } => SpecExpression::Postfix {
            left: Box::new(expression_view(*left)),
            operator,
        },
        Expression::Prefix { operator, right } => SpecExpression::Prefix {
            operator,
            right: Box::new(expression_view(*right)),
        },
        Expression::Assign { left, operator, right } => SpecExpression::Assign {
            left: Box::new(expression_view(*left)),
            operator,
            right: Box::new(expression_view(*right)),
        },
    }
}

/// The mathematical value of a block.
pub open spec fn block_view(b: Block) -> SpecBlock
    decreases b,
{
    SpecBlock {
        statements: Seq::new(
            b.statements.len() as nat,
            |i: int|
                if 0 <= i < b.statements.len() {
                    statement_view(b.statements[i])
                } else {
                    SpecStatement::Return { value: None, span: Span { start: 0, end: 0 } }
                },
        ),
    }
}

/// The mathematical value of a statement.
pub open spec fn statement_view(s: Statement) -> SpecStatement
    decreases s,
{
    match s {
        Statement::VariableDeclaration { ident, var_type, value, span } => {
            SpecStatement::VariableDeclaration {
                ident: ident@,
                var_type,
                value: expression_view(value),
                span,
            }
        },
        Statement::Assign { ident, value, span } => SpecStatement::Assign {
            ident: ident@,
            value: expression_view(value),
            span,
        },
        Statement::Return { value, span } => SpecStatement::Return {
            value: match value {
                Some(e) => Some(expression_view(e)),
                None => None,
            },
            span,
        },
        Statement::Block { block, span } => SpecStatement::Block {
            block: Box::new(block_view(*block)),
            span,
        },
        Statement::If { condition, then_branch, else_branch, span } => SpecStatement::If {
            condition: expression_view(condition),
            then_branch: Box::new(statement_view(*then_branch)),
            else_branch: match else_branch {
                Some(s) => Some(Box::new(statement_view(*s))),
                None => None,
            },
            span,
        },
        Statement::While { condition, body, span } => SpecStatement::While {
            condition: expression_view(condition),
            body: block_view(body),
            span,
        },
        Statement::Expression { expression, span } => SpecStatement::Expression {
            expression: expression_view(expression),
            span,
        },
        Statement::DoUntil { condition, body, span } => SpecStatement::DoUntil {
            condition: expression_view(condition),
            body: Box::new(statement_view(*body)),
            span,
        },
        Statement::For { init, condition, increment, body, span } => SpecStatement::For {
            init: Box::new(statement_view(*init)),
            condition: expression_view(condition),
            increment: Box::new(statement_view(*increment)),
            body: block_view(body),
            span,
        },
    }
}

impl View for Expression {
    type V = SpecExpression;

    open spec fn view(&self) -> SpecExpression {
        expression_view(*self)
    }
}

impl View for Block {
    type V = SpecBlock;

    open spec fn view(&self) -> SpecBlock {
        block_view(*self)
    }
}

impl View for Statement {
    type V = SpecStatement;

    open spec fn view(&self) -> SpecStatement {
        statement_view(*self)
    }
}

/// The values of a sequence of expressions.
pub open spec fn expressions_view(v: Seq<Expression>) -> Seq<SpecExpression> {
    Seq::new(v.len(), |i: int| expression_view(v[i]))
}

/// The values of a sequence of statements.
pub open spec fn statements_view(v: Seq<Statement>) -> Seq<SpecStatement> {
    Seq::new(v.len(), |i: int| statement_view(v[i]))
}

/// The values of a sequence of parameters.
pub open spec fn parameters_view(v: Seq<Parameter>) -> Seq<SpecParameter> {
    Seq::new(v.len(), |i: int| v[i]@)
}

/// The values of a sequence of functions.
pub open spec fn functions_view(v: Seq<Function>) -> Seq<SpecFunction> {
    Seq::new(v.len(), |i: int| v[i]@)
}

/// The arguments of a call are viewed one by one.
pub proof fn lemma_call_view(callee: Box<Expression>, arguments: Vec<Expression>)
    ensures
        (Expression::Call { callee, arguments })@ == (SpecExpression::Call {
            callee: Box::new(expression_view(*callee)),
            arguments: expressions_view(arguments@),
        }),
{
    let e = Expression::Call { callee, arguments };
    assert(e@->Call_arguments =~= expressions_view(arguments@));
}

/// The statements of a block are viewed one by one.
pub proof fn lemma_block_view(b: Block)
    ensures
        b@ == (SpecBlock { statements: statements_view(b.statements@) }),
{
    assert(b@.statements =~= statements_view(b.statements@));
}

/// The parameters of a list are viewed one by one.
pub proof fn lemma_parameters_view(p: Parameters)
    ensures
        p@ == parameters_view(p.params@),
{
    assert(p@ =~= parameters_view(p.params@));
}

/// The functions of a program are viewed one by one.
pub proof fn lemma_program_view(p: Program)
    ensures
        p@ == (SpecProgram { functions: functions_view(p.functions@) }),
{
    assert(p@.functions =~= functions_view(p.functions@));
}

impl View for Function {
    type V = SpecFunction;

    open spec fn view(&self) -> SpecFunction {
        SpecFunction {
            ident: self.ident@,
            params: self.params@,
            return_type: self.return_type,
            body: self.body@,
            span: self.span,
        }
    }
}

impl View for Program {
    type V = SpecProgram;

    open spec fn view(&self) -> SpecProgram {
        SpecProgram { functions: Seq::new(self.functions.len() as nat, |i: int| self.functions[i]@) }
    }
}

/// A copy of a list of parameters.
fn copy_parameters(params: &Parameters) -> (r: Parameters)
    ensures
        r@ == params@,
{
    let mut copy: Vec<Parameter> = Vec::new();
    let mut i: usize = 0;
    while i < params.params.len()
        invariant
            i <= params.params.len(),
            copy.len() == i,
            forall|k: int| 0 <= k < i ==> (#[trigger] copy[k])@ == params.params[k]@,
        decreases params.params.len() - i,
    {
        copy.push(
            Parameter {
                ident: params.params[i].ident.clone(),
                param_type: params.params[i].param_type,
            },
        );
        i += 1;
    }
    let r = Parameters { params: copy };
    assert(r@ =~= params@);
    r
}

/// A copy of an expression.
fn copy_expression(e: &Expression) -> (r: Expression)
    ensures
        r@ == e@,
    decreases e, 0int,
{
    match e {
        Expression::IntegerLiteral { value } => Expression::IntegerLiteral { value: *value },
        Expression::FloatLiteral { value } => Expression::FloatLiteral { value: value.clone() },
        Expression::StringLiteral { value } => Expression::StringLiteral { value: value.clone() },
        Expression::BooleanLiteral { value } => Expression::BooleanLiteral { value: *value },
        Expression::NullLiteral => Expression::NullLiteral,
        Expression::Identifier { ident } => Expression::Identifier { ident: ident.clone() },
        Expression::Binary { left, operator, right } => Expression::Binary {
            left: Box::new(copy_expression(left)),
            operator: *operator,
            right: Box::new(copy_expression(right)),
        },
        Expression::Unary { operator, right } => Expression::Unary {
            operator: *operator,
            right: Box::new(copy_expression(right)),
        },
        Expression::Grouping { expression } => Expression::Grouping {
            expression: Box::new(copy_expression(expression)),
        },
        Expression::Function { params, return_type, body } => Expression::Function {
            params: copy_parameters(params),
            return_type: *return_type,
            body: copy_block(body),
        },
        Expression::Call { callee, arguments } => {
            let copy = copy_expressions(arguments);
            let callee_copy = Box::new(copy_expression(callee));
            proof {
                lemma_call_view(*callee, *arguments);
                lemma_call_view(callee_copy, copy);
                assert(expressions_view(copy@) =~= expressions_view(arguments@));
            }
            Expression::Call { callee: callee_copy, arguments: copy }
        },
        Expression::Postfix { left, operator } => Expression::Postfix {
            left: Box::new(copy_expression(left)),
            operator: *operator,
        },
        Expression::Prefix { operator, right } => Expression::Prefix {
            operator: *operator,
            right: Box::new(copy_expression(right)),
        },
        Expression::Assign { left, operator, right } => Expression::Assign {
            left: Box::new(copy_expression(left)),
            operator: *operator,
            right: Box::new(copy_expression(right)),
        },
    }
}

/// Copies of expressions.
fn copy_expressions(v: &Vec<Expression>) -> (r: Vec<Expression>)
    ensures
        r.len() == v.len(),
        forall|k: int| 0 <= k < r.len() ==> (#[trigger] r[k])@ == v[k]@,
    decreases v, 1int,
{
    let mut r: Vec<Expression> = Vec::new();
    let mut i: usize = 0;
    while i < v.len()
        invariant
            i <= v.len(),
            r.len() == i,
            forall|k: int| 0 <= k < i ==> (#[trigger] r[k])@ == v[k]@,
        decreases v.len() - i,
    {
        r.push(copy_expression(&v[i]));
        i += 1;
    }
    r
}

/// A copy of a block.
fn copy_block(b: &Block) -> (r: Block)
    ensures
        r@ == b@,
    decreases b, 1int,
{
    let copy = copy_statements(&b.statements);
    let r = Block { statements: copy };
    proof {
        lemma_block_view(r);
        lemma_block_view(*b);
        assert(statements_view(r.statements@) =~= statements_view(b.statements@));
    }
    r
}

/// Copies of statements.
fn copy_statements(v: &Vec<Statement>) -> (r: Vec<Statement>)
    ensures
        r.len() == v.len(),
        forall|k: int| 0 <= k < r.len() ==> (#[trigger] r[k])@ == v[k]@,
    decreases v, 1int,
{
    let mut r: Vec<Statement> = Vec::new();
    let mut i: usize = 0;
    while i < v.len()
        invariant
            i <= v.len(),
            r.len() == i,
            forall|k: int| 0 <= k < i ==> (#[trigger] r[k])@ == v[k]@,
        decreases v.len() - i,
    {
        r.push(copy_statement(&v[i]));
        i += 1;
    }
    r
}

/// A copy of a statement.
fn copy_statement(s: &Statement) -> (r: Statement)
    ensures
        r@ == s@,
    decreases s, 0int,
{
    match s {
        Statement::VariableDeclaration { ident, var_type, value, span } => {
            Statement::VariableDeclaration {
                ident: ident.clone(),
                var_type: *var_type,
                value: copy_expression(value),
                span: *span,
            }
        },
        Statement::Assign { ident, value, span } => Statement::Assign {
            ident: ident.clone(),
            value: copy_expression(value),
            span: *span,
        },
        Statement::Return { value, span } => Statement::Return {
            value: match value {
                Some(e) => Some(copy_expression(e)),
                None => None,
            },
            span: *span,
        },
        Statement::Block { block, span } => Statement::Block {
            block: Box::new(copy_block(block)),
            span: *span,
        },
        Statement::If { condition, then_branch, else_branch, span } => Statement::If {
            condition: copy_expression(condition),
            then_branch: Box::new(copy_statement(then_branch)),
            else_branch: match else_branch {
                Some(e) => Some(Box::new(copy_statement(e))),
                None => None,
            },
            span: *span,
        },
        Statement::While { condition, body, span } => Statement::While {
            condition: copy_expression(condition),
            body: copy_block(body),
            span: *span,
        },
        Statement::Expression { expression, span } => Statement::Expression {
            expression: copy_expression(expression),
            span: *span,
        },
        Statement::DoUntil { condition, body, span } => Statement::DoUntil {
            condition: copy_expression(condition),
            body: Box::new(copy_statement(body)),
            span: *span,
        },
        Statement::For { init, condition, increment, body, span } => Statement::For {
            init: Box::new(copy_statement(init)),
            condition: copy_expression(condition),
            increment: Box::new(copy_statement(increment)),
            body: copy_block(body),
            span: *span,
        },
    }
}

impl Clone for Expression {
    fn clone(&self) -> (r: Self)
        ensures
            r@ == self@,
    {
        copy_expression(self)
    }
}

impl Clone for Statement {
    fn clone(&self) -> (r: Self)
        ensures
            r@ == self@,
    {
        copy_statement(self)
    }
}

impl Clone for Block {
    fn clone(&self) -> (r: Self)
        ensures
            r@ == self@,
    {
        copy_block(self)
    }
}

impl Clone for Function {
    fn clone(&self) -> (r: Self)
        ensures
            r@ == self@,
    {
        Function {
            ident: self.ident.clone(),
            params: copy_parameters(&self.params),
            return_type: self.return_type,
            body: copy_block(&self.body),
            span: self.span,
        }
    }
}

impl Clone for Program {
    fn clone(&self) -> (r: Self)
        ensures
            r@ == self@,
    {
        let mut functions: Vec<Function> = Vec::new();
        let mut i: usize = 0;
        while i < self.functions.len()
            invariant
                i <= self.functions.len(),
                functions.len() == i,
                forall|k: int| 0 <= k < i ==> (#[trigger] functions[k])@ == self.functions[k]@,
            decreases self.functions.len() - i,
        {
            functions.push(self.functions[i].clone());
            i += 1;
        }
        let r = Program { functions };
        assert(r@.functions =~= self@.functions);
        r
    }
}

} // verus!
