//! Tokens: the lexical units of the language.

use crate::error::Span;
use crate::text::{append_int, append_span, spec_int_text, spec_span_text};
use vstd::prelude::*;
use vstd::string::StringExecFns;

verus! {

/// A lexical unit, representing a single token in the source code.
#[derive(Debug, Clone, PartialEq)]
pub enum TokenType {
    // Single-character tokens
    /// `(`
    LeftParen,
    /// `)`
    RightParen,
    /// `{`
    LeftBrace,
    /// `}`
    RightBrace,
    /// `,`
    Comma,
    /// `.`
    Dot,
    /// `-`
    Minus,
    /// `+`
    Plus,
    /// `;`
    Semicolon,
    /// `/`
    Slash,
    /// `*`
    Star,
    /// `:`
    Colon,
    // One or two character tokens
    /// `!`
    Bang,
    /// `!=`
    BangEqual,
    /// `=`
    Equal,
    /// `==`
    EqualEqual,
    /// `>`
    Greater,
    /// `>=`
    GreaterEqual,
    /// `<`
    Less,
    /// `<=`
    LessEqual,
    /// `++`
    PlusPlus,
    /// `--`
    MinusMinus,
    /// `**`
    StarStar,
    /// `//`
    SlashSlash,
    /// `+=`
    PlusEqual,
    /// `-=`
    MinusEqual,
    /// `*=`
    StarEqual,
    /// `/=`
    SlashEqual,
    // Literals
    /// A string literal, without its quotes.
    StringLiteral(String),
    /// An integer literal.
    IntegerLiteral(i64),
    /// A floating-point literal, held as its digits: whole part, `.`,
    /// fractional part.
    FloatLiteral(String),
    /// An identifier.
    Ident(String),
    // Keywords
    /// `func`
    Function,
    /// `let`
    Let,
    /// `if`
    If,
    /// `else`
    Else,
    /// `while`
    While,
    /// `return`
    Return,
    /// `true`
    True,
    /// `false`
    False,
    /// `for`
    For,
    /// `do`
    Do,
    /// `until`
    Until,
    /// `or`
    Or,
    /// `and`
    And,
    /// `not`
    Not,
    // Types
    /// `int`
    Int,
    /// `float`
    Float,
    /// `bool`
    Bool,
    /// `string`
    String,
    /// `null`
    Null,
    /// `void`
    Void,
    /// End of input.
    Eof,
}

/// The mathematical value of a `TokenType`: strings are sequences of
/// characters.
pub enum SpecTokenType {
    LeftParen,
    RightParen,
    LeftBrace,
    RightBrace,
    Comma,
    Dot,
    Minus,
    Plus,
    Semicolon,
    Slash,
    Star,
    Colon,
    Bang,
    BangEqual,
    Equal,
    EqualEqual,
    Greater,
    GreaterEqual,
    Less,
    LessEqual,
    PlusPlus,
    MinusMinus,
    StarStar,
    SlashSlash,
    PlusEqual,
    MinusEqual,
    StarEqual,
    SlashEqual,
    StringLiteral(Seq<char>),
    IntegerLiteral(i64),
    FloatLiteral(Seq<char>),
    Ident(Seq<char>),
    Function,
    Let,
    If,
    Else,
    While,
    Return,
    True,
    False,
    For,
    Do,
    Until,
    Or,
    And,
    Not,
    Int,
    Float,
    Bool,
    String,
    Null,
    Void,
    Eof,
}

impl View for TokenType {
    type V = SpecTokenType;

    open spec fn view(&self) -> SpecTokenType {
        match self {
            TokenType::LeftParen => SpecTokenType::LeftParen,
            TokenType::RightParen => SpecTokenType::RightParen,
            TokenType::LeftBrace => SpecTokenType::LeftBrace,
            TokenType::RightBrace => SpecTokenType::RightBrace,
            TokenType::Comma => SpecTokenType::Comma,
            TokenType::Dot => SpecTokenType::Dot,
            TokenType::Minus => SpecTokenType::Minus,
            TokenType::Plus => SpecTokenType::Plus,
            TokenType::Semicolon => SpecTokenType::Semicolon,
            TokenType::Slash => SpecTokenType::Slash,
            TokenType::Star => SpecTokenType::Star,
            TokenType::Colon => SpecTokenType::Colon,
            TokenType::Bang => SpecTokenType::Bang,
            TokenType::BangEqual => SpecTokenType::BangEqual,
            TokenType::Equal => SpecTokenType::Equal,
            TokenType::EqualEqual => SpecTokenType::EqualEqual,
            TokenType::Greater => SpecTokenType::Greater,
            TokenType::GreaterEqual => SpecTokenType::GreaterEqual,
            TokenType::Less => SpecTokenType::Less,
            TokenType::LessEqual => SpecTokenType::LessEqual,
            TokenType::PlusPlus => SpecTokenType::PlusPlus,
            TokenType::MinusMinus => SpecTokenType::MinusMinus,
            TokenType::StarStar => SpecTokenType::StarStar,
            TokenType::SlashSlash => SpecTokenType::SlashSlash,
            TokenType::PlusEqual => SpecTokenType::PlusEqual,
            TokenType::MinusEqual => SpecTokenType::MinusEqual,
            TokenType::StarEqual => SpecTokenType::StarEqual,
            TokenType::SlashEqual => SpecTokenType::SlashEqual,
            TokenType::Function => SpecTokenType::Function,
            TokenType::Let => SpecTokenType::Let,
            TokenType::If => SpecTokenType::If,
            TokenType::Else => SpecTokenType::Else,
            TokenType::While => SpecTokenType::While,
            TokenType::Return => SpecTokenType::Return,
            TokenType::True => SpecTokenType::True,
            TokenType::False => SpecTokenType::False,
            TokenType::For => SpecTokenType::For,
            TokenType::Do => SpecTokenType::Do,
            TokenType::Until => SpecTokenType::Until,
            TokenType::Or => SpecTokenType::Or,
            TokenType::And => SpecTokenType::And,
            TokenType::Not => SpecTokenType::Not,
            TokenType::Int => SpecTokenType::Int,
            TokenType::Float => SpecTokenType::Float,
            TokenType::Bool => SpecTokenType::Bool,
            TokenType::String => SpecTokenType::String,
            TokenType::Null => SpecTokenType::Null,
            TokenType::Void => SpecTokenType::Void,
            TokenType::Eof => SpecTokenType::Eof,
            TokenType::StringLiteral(s) => SpecTokenType::StringLiteral(s@),
            TokenType::IntegerLiteral(n) => SpecTokenType::IntegerLiteral(*n),
            TokenType::FloatLiteral(s) => SpecTokenType::FloatLiteral(s@),
            TokenType::Ident(s) => SpecTokenType::Ident(s@),
        }
    }
}

/// How a token type is written in source text and in messages: the
/// punctuation or keyword itself, a string literal between double quotes, a
/// number as its digits, an identifier as its name, and `EOF` for the end of
/// input.
pub open spec fn spec_lexeme(t: SpecTokenType) -> Seq<char> {
    match t {
        SpecTokenType::LeftParen => "("@,
        SpecTokenType::RightParen => ")"@,
        SpecTokenType::LeftBrace => "{"@,
        SpecTokenType::RightBrace => "}"@,
        SpecTokenType::Comma => ","@,
        SpecTokenType::Dot => "."@,
        SpecTokenType::Minus => "-"@,
        SpecTokenType::Plus => "+"@,
        SpecTokenType::Semicolon => ";"@,
        SpecTokenType::Slash => "/"@,
        SpecTokenType::Star => "*"@,
        SpecTokenType::Colon => ":"@,
        SpecTokenType::Bang => "!"@,
        SpecTokenType::BangEqual => "!="@,
        SpecTokenType::Equal => "="@,
        SpecTokenType::EqualEqual => "=="@,
        SpecTokenType::Greater => ">"@,
        SpecTokenType::GreaterEqual => ">="@,
        SpecTokenType::Less => "<"@,
        SpecTokenType::LessEqual => "<="@,
        SpecTokenType::PlusPlus => "++"@,
        SpecTokenType::MinusMinus => "--"@,
        SpecTokenType::StarStar => "**"@,
        SpecTokenType::SlashSlash => "//"@,
        SpecTokenType::PlusEqual => "+="@,
        SpecTokenType::MinusEqual => "-="@,
        SpecTokenType::StarEqual => "*="@,
        SpecTokenType::SlashEqual => "/="@,
        SpecTokenType::Function => "func"@,
        SpecTokenType::Let => "let"@,
        SpecTokenType::If => "if"@,
        SpecTokenType::Else => "else"@,
        SpecTokenType::While => "while"@,
        SpecTokenType::Return => "return"@,
        SpecTokenType::True => "true"@,
        SpecTokenType::False => "false"@,
        SpecTokenType::For => "for"@,
        SpecTokenType::Do => "do"@,
        SpecTokenType::Until => "until"@,
        SpecTokenType::Or => "or"@,
        SpecTokenType::And => "and"@,
        SpecTokenType::Not => "not"@,
        SpecTokenType::Int => "int"@,
        SpecTokenType::Float => "float"@,
        SpecTokenType::Bool => "bool"@,
        SpecTokenType::String => "string"@,
        SpecTokenType::Null => "null"@,
        SpecTokenType::Void => "void"@,
        SpecTokenType::Eof => "EOF"@,
        SpecTokenType::StringLiteral(s) => "\""@ + s + "\""@,
        SpecTokenType::IntegerLiteral(n) => spec_int_text(n as int),
        SpecTokenType::FloatLiteral(s) => s,
        SpecTokenType::Ident(s) => s,
    }
}

impl TokenType {
    /// Whether two token types are the same, payload included.
    pub fn same_as(&self, other: &TokenType) -> (r: bool)
        ensures
            r == (self@ == other@),
    {
        match self {
            TokenType::LeftParen => matches!(other, TokenType::LeftParen),
            TokenType::RightParen => matches!(other, TokenType::RightParen),
            TokenType::LeftBrace => matches!(other, TokenType::LeftBrace),
            TokenType::RightBrace => matches!(other, TokenType::RightBrace),
            TokenType::Comma => matches!(other, TokenType::Comma),
            TokenType::Dot => matches!(other, TokenType::Dot),
            TokenType::Minus => matches!(other, TokenType::Minus),
            TokenType::Plus => matches!(other, TokenType::Plus),
            TokenType::Semicolon => matches!(other, TokenType::Semicolon),
            TokenType::Slash => matches!(other, TokenType::Slash),
            TokenType::Star => matches!(other, TokenType::Star),
            TokenType::Colon => matches!(other, TokenType::Colon),
            TokenType::Bang => matches!(other, TokenType::Bang),
            TokenType::BangEqual => matches!(other, TokenType::BangEqual),
            TokenType::Equal => matches!(other, TokenType::Equal),
            TokenType::EqualEqual => matches!(other, TokenType::EqualEqual),
            TokenType::Greater => matches!(other, TokenType::Greater),
            TokenType::GreaterEqual => matches!(other, TokenType::GreaterEqual),
            TokenType::Less => matches!(other, TokenType::Less),
            TokenType::LessEqual => matches!(other, TokenType::LessEqual),
            TokenType::PlusPlus => matches!(other, TokenType::PlusPlus),
            TokenType::MinusMinus => matches!(other, TokenType::MinusMinus),
            TokenType::StarStar => matches!(other, TokenType::StarStar),
            TokenType::SlashSlash => matches!(other, TokenType::SlashSlash),
            TokenType::PlusEqual => matches!(other, TokenType::PlusEqual),
            TokenType::MinusEqual => matches!(other, TokenType::MinusEqual),
            TokenType::StarEqual => matches!(other, TokenType::StarEqual),
            TokenType::SlashEqual => matches!(other, TokenType::SlashEqual),
            TokenType::Function => matches!(other, TokenType::Function),
            TokenType::Let => matches!(other, TokenType::Let),
            TokenType::If => matches!(other, TokenType::If),
            TokenType::Else => matches!(other, TokenType::Else),
            TokenType::While => matches!(other, TokenType::While),
            TokenType::Return => matches!(other, TokenType::Return),
            TokenType::True => matches!(other, TokenType::True),
            TokenType::False => matches!(other, TokenType::False),
            TokenType::For => matches!(other, TokenType::For),
            TokenType::Do => matches!(other, TokenType::Do),
            TokenType::Until => matches!(other, TokenType::Until),
            TokenType::Or => matches!(other, TokenType::Or),
            TokenType::And => matches!(other, TokenType::And),
            TokenType::Not => matches!(other, TokenType::Not),
            TokenType::Int => matches!(other, TokenType::Int),
            TokenType::Float => matches!(other, TokenType::Float),
            TokenType::Bool => matches!(other, TokenType::Bool),
            TokenType::String => matches!(other, TokenType::String),
            TokenType::Null => matches!(other, TokenType::Null),
            TokenType::Void => matches!(other, TokenType::Void),
            TokenType::Eof => matches!(other, TokenType::Eof),
            TokenType::StringLiteral(a) => match other {
                TokenType::StringLiteral(b) => *a == *b,
                _ => false,
            },
            TokenType::IntegerLiteral(a) => match other {
                TokenType::IntegerLiteral(b) => *a == *b,
                _ => false,
            },
            TokenType::FloatLiteral(a) => match other {
                TokenType::FloatLiteral(b) => *a == *b,
                _ => false,
            },
            TokenType::Ident(a) => match other {
                TokenType::Ident(b) => *a == *b,
                _ => false,
            },
        }
    }

    /// The token type as it is written in source text.
    pub fn to_string(&self) -> (r: String)
        ensures
            r@ == spec_lexeme(self@),
    {
        match self {
            TokenType::LeftParen => String::from_str("("),
            TokenType::RightParen => String::from_str(")"),
            TokenType::LeftBrace => String::from_str("{"),
            TokenType::RightBrace => String::from_str("}"),
            TokenType::Comma => String::from_str(","),
            TokenType::Dot => String::from_str("."),
            TokenType::Minus => String::from_str("-"),
            TokenType::Plus => String::from_str("+"),
            TokenType::Semicolon => String::from_str(";"),
            TokenType::Slash => String::from_str("/"),
            TokenType::Star => String::from_str("*"),
            TokenType::Colon => String::from_str(":"),
            TokenType::Bang => String::from_str("!"),
            TokenType::BangEqual => String::from_str("!="),
            TokenType::Equal => String::from_str("="),
            TokenType::EqualEqual => String::from_str("=="),
            TokenType::Greater => String::from_str(">"),
            TokenType::GreaterEqual => String::from_str(">="),
            TokenType::Less => String::from_str("<"),
            TokenType::LessEqual => String::from_str("<="),
            TokenType::PlusPlus => String::from_str("++"),
            TokenType::MinusMinus => String::from_str("--"),
            TokenType::StarStar => String::from_str("**"),
            TokenType::SlashSlash => String::from_str("//"),
            TokenType::PlusEqual => String::from_str("+="),
            TokenType::MinusEqual => String::from_str("-="),
            TokenType::StarEqual => String::from_str("*="),
            TokenType::SlashEqual => String::from_str("/="),
            TokenType::Function => String::from_str("func"),
            TokenType::Let => String::from_str("let"),
            TokenType::If => String::from_str("if"),
            TokenType::Else => String::from_str("else"),
            TokenType::While => String::from_str("while"),
            TokenType::Return => String::from_str("return"),
            TokenType::True => String::from_str("true"),
            TokenType::False => String::from_str("false"),
            TokenType::For => String::from_str("for"),
            TokenType::Do => String::from_str("do"),
            TokenType::Until => String::from_str("until"),
            TokenType::Or => String::from_str("or"),
            TokenType::And => String::from_str("and"),
            TokenType::Not => String::from_str("not"),
            TokenType::Int => String::from_str("int"),
            TokenType::Float => String::from_str("float"),
            TokenType::Bool => String::from_str("bool"),
            TokenType::String => String::from_str("string"),
            TokenType::Null => String::from_str("null"),
            TokenType::Void => String::from_str("void"),
            TokenType::Eof => String::from_str("EOF"),
            TokenType::StringLiteral(s) => {
                let mut r = String::from_str("\"");
                r.append(s.as_str());
                r.append("\"");
                r
            },
            TokenType::IntegerLiteral(n) => {
                let mut r = String::new();
                append_int(&mut r, *n);
                r
            },
            TokenType::FloatLiteral(s) => s.clone(),
            TokenType::Ident(s) => s.clone(),
        }
    }
}

/// Lexical unit with a span.
#[derive(Debug, Clone, PartialEq)]
pub struct Token {
    pub token_type: TokenType,
    pub span: Span,
}

/// The mathematical value of a `Token`.
pub struct SpecToken {
    pub token_type: SpecTokenType,
    pub span: Span,
}

impl View for Token {
    type V = SpecToken;

    open spec fn view(&self) -> SpecToken {
        SpecToken { token_type: self.token_type@, span: self.span }
    }
}

impl DeepView for Token {
    type V = SpecToken;

    open spec fn deep_view(&self) -> SpecToken {
        self@
    }
}

/// A token as it is shown in messages: its lexeme, a space, and its span.
pub open spec fn spec_token_text(t: SpecToken) -> Seq<char> {
    spec_lexeme(t.token_type) + " "@ + spec_span_text(t.span)
}

impl Token {
    /// A token of that type at that span.
    pub fn new(token_type: TokenType, span: Span) -> (t: Self)
        ensures
            t.token_type == token_type,
            t.span == span,
    {
        Self { token_type, span }
    }

    /// The token as it is shown in messages.
    pub fn to_string(&self) -> (r: String)
        ensures
            r@ == spec_token_text(self@),
    {
        let mut r = self.token_type.to_string();
        r.append(" ");
        append_span(&mut r, self.span);
        r
    }
}

} // verus!
