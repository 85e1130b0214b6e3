//! The scanner: source text to tokens.
//!
//! Scanning is maximal munch over characters.  Whitespace and comments
//! (`// ...` to the end of the line, `/* ... */`) separate tokens and are
//! dropped.  Offsets count characters, not bytes.

pub mod tokens;

use crate::error::{CompileError, CompileResult, Span, SpecCompileError};
use crate::text::{digit_of, digit_value, is_digit, to_chars};
use vstd::prelude::*;
use vstd::string::StringExecFns;

pub use tokens::{SpecToken, SpecTokenType, Token, TokenType};

verus! {

/// A character that separates tokens and is dropped.
pub open spec fn is_whitespace(c: char) -> bool {
    c == ' ' || c == '\r' || c == '\t' || c == '\n'
}

/// A character that may begin an identifier.
pub open spec fn is_ident_start(c: char) -> bool {
    ('a' <= c <= 'z') || ('A' <= c <= 'Z') || c == '_'
}

/// What `char::is_alphanumeric` answers for `c`.
pub uninterp spec fn unicode_alphanumeric(c: char) -> bool;

/// A character of ASCII.
pub open spec fn is_ascii(c: char) -> bool {
    c <= '\u{7f}'
}

/// A letter or digit of ASCII.
pub open spec fn is_ascii_alphanumeric(c: char) -> bool {
    ('a' <= c <= 'z') || ('A' <= c <= 'Z') || ('0' <= c <= '9')
}

/// A character that may continue an identifier: a letter or digit of any
/// script, or an underscore.  Within ASCII these are the letters, the digits
/// and the underscore; outside it, what Unicode counts as alphabetic or
/// numeric.
pub open spec fn is_ident_continue(c: char) -> bool {
    if is_ascii(c) {
        is_ascii_alphanumeric(c) || c == '_'
    } else {
        unicode_alphanumeric(c)
    }
}

/// `char::is_alphanumeric`: whether `c` is alphabetic or numeric in Unicode's
/// sense.  The answer is named, not described; the scanner asks it only of
/// characters outside ASCII.
#[verifier::external_body]
fn is_alphanumeric(c: char) -> (r: bool)
    ensures
        r == unicode_alphanumeric(c),
{
    c.is_alphanumeric()
}

/// The first index at or after `i` that holds no digit.
pub open spec fn digits_end(s: Seq<char>, i: int) -> int
    decreases s.len() - i,
{
    if 0 <= i < s.len() && is_digit(s[i]) {
        digits_end(s, i + 1)
    } else {
        i
    }
}

/// The first index at or after `i` that holds no identifier character.
pub open spec fn ident_end(s: Seq<char>, i: int) -> int
    decreases s.len() - i,
{
    if 0 <= i < s.len() && is_ident_continue(s[i]) {
        ident_end(s, i + 1)
    } else {
        i
    }
}

/// Where a line comment whose text begins at `i` ends: just after the next
/// line break, or at the end of the source.
pub open spec fn line_comment_end(s: Seq<char>, i: int) -> int
    decreases s.len() - i,
{
    if 0 <= i < s.len() {
        if s[i] == '\n' {
            i + 1
        } else {
            line_comment_end(s, i + 1)
        }
    } else {
        i
    }
}

/// Where a block comment whose text begins at `i` ends: just after the next
/// `*/`, or at the end of the source when it is never closed.
pub open spec fn block_comment_end(s: Seq<char>, i: int) -> int
    decreases s.len() - i,
{
    if 0 <= i < s.len() {
        if s[i] == '*' && i + 1 < s.len() && s[i + 1] == '/' {
            i + 2
        } else {
            block_comment_end(s, i + 1)
        }
    } else {
        i
    }
}

/// The index of the first double quote at or after `i`, or the end of the
/// source when there is none.
pub open spec fn string_close(s: Seq<char>, i: int) -> int
    decreases s.len() - i,
{
    if 0 <= i < s.len() && s[i] != '"' {
        string_close(s, i + 1)
    } else {
        i
    }
}

/// The number that a sequence of digits writes.
pub open spec fn decimal_value(digits: Seq<char>) -> nat
    decreases digits.len(),
{
    if digits.len() == 0 {
        0
    } else {
        decimal_value(digits.drop_last()) * 10 + digit_value(digits.last())
    }
}

/// The keyword that `word` spells, or the identifier that it is.
pub open spec fn word_token(word: Seq<char>) -> SpecTokenType {
    if word == "else"@ {
        SpecTokenType::Else
    } else if word == "false"@ {
        SpecTokenType::False
    } else if word == "if"@ {
        SpecTokenType::If
    } else if word == "return"@ {
        SpecTokenType::Return
    } else if word == "true"@ {
        SpecTokenType::True
    } else if word == "let"@ {
        SpecTokenType::Let
    } else if word == "while"@ {
        SpecTokenType::While
    } else if word == "for"@ {
        SpecTokenType::For
    } else if word == "func"@ {
        SpecTokenType::Function
    } else if word == "int"@ {
        SpecTokenType::Int
    } else if word == "float"@ {
        SpecTokenType::Float
    } else if word == "string"@ {
        SpecTokenType::String
    } else if word == "bool"@ {
        SpecTokenType::Bool
    } else if word == "null"@ {
        SpecTokenType::Null
    } else if word == "void"@ {
        SpecTokenType::Void
    } else if word == "do"@ {
        SpecTokenType::Do
    } else if word == "until"@ {
        SpecTokenType::Until
    } else if word == "or"@ {
        SpecTokenType::Or
    } else if word == "and"@ {
        SpecTokenType::And
    } else if word == "not"@ {
        SpecTokenType::Not
    } else {
        SpecTokenType::Ident(word)
    }
}

/// What the scanner finds at one position.
pub enum Scanned {
    /// Whitespace or a comment; scanning goes on at `next`.
    Skip { next: int },
    /// A token that ends just before `next`.
    Token { token_type: SpecTokenType, next: int },
    /// Text that is no token, ending just before `next`.
    Error { message: Seq<char>, next: int },
}

impl Scanned {
    /// Where scanning goes on.
    pub open spec fn next(self) -> int {
        match self {
            Scanned::Skip { next } => next,
            Scanned::Token { next, .. } => next,
            Scanned::Error { next, .. } => next,
        }
    }
}

/// The one- or two-character operator that begins with `c`, given whether the
/// character after it is `second`.
pub open spec fn either(
    s: Seq<char>,
    i: int,
    second: char,
    two: SpecTokenType,
    one: SpecTokenType,
) -> Scanned {
    if i + 1 < s.len() && s[i + 1] == second {
        Scanned::Token { token_type: two, next: i + 2 }
    } else {
        Scanned::Token { token_type: one, next: i + 1 }
    }
}

/// A number that begins at `i`: digits, and, when a `.` follows them, the `.`
/// and the digits after it.
pub open spec fn scan_number(s: Seq<char>, i: int) -> Scanned {
    let e = digits_end(s, i + 1);
    if e < s.len() && s[e] == '.' {
        let f = digits_end(s, e + 1);
        Scanned::Token { token_type: SpecTokenType::FloatLiteral(s.subrange(i, f)), next: f }
    } else if decimal_value(s.subrange(i, e)) <= i64::MAX {
        Scanned::Token {
            token_type: SpecTokenType::IntegerLiteral(decimal_value(s.subrange(i, e)) as i64),
            next: e,
        }
    } else {
        Scanned::Error { message: "Integer literal out of range"@, next: e }
    }
}

/// A string literal whose opening quote is at `i`.  It runs to the next
/// double quote; one that is never closed runs to the end of the source.
pub open spec fn scan_string(s: Seq<char>, i: int) -> Scanned {
    let e = string_close(s, i + 1);
    Scanned::Token {
        token_type: SpecTokenType::StringLiteral(s.subrange(i + 1, e)),
        next: if e < s.len() {
            e + 1
        } else {
            e
        },
    }
}

/// What begins with the `/` at `i`: a comment, `/=` or `/`.
pub open spec fn scan_slash(s: Seq<char>, i: int) -> Scanned {
    if i + 1 < s.len() && s[i + 1] == '/' {
        Scanned::Skip { next: line_comment_end(s, i + 2) }
    } else if i + 1 < s.len() && s[i + 1] == '*' {
        Scanned::Skip { next: block_comment_end(s, i + 2) }
    } else {
        either(s, i, '=', SpecTokenType::SlashEqual, SpecTokenType::Slash)
    }
}

/// What the scanner finds at `i`, for `0 <= i < s.len()`.
pub open spec fn scan(s: Seq<char>, i: int) -> Scanned {
    let c = s[i];
    if is_whitespace(c) {
        Scanned::Skip { next: i + 1 }
    } else if c == '(' {
        Scanned::Token { token_type: SpecTokenType::LeftParen, next: i + 1 }
    } else if c == ')' {
        Scanned::Token { token_type: SpecTokenType::RightParen, next: i + 1 }
    } else if c == '{' {
        Scanned::Token { token_type: SpecTokenType::LeftBrace, next: i + 1 }
    } else if c == '}' {
        Scanned::Token { token_type: SpecTokenType::RightBrace, next: i + 1 }
    } else if c == ',' {
        Scanned::Token { token_type: SpecTokenType::Comma, next: i + 1 }
    } else if c == '.' {
        Scanned::Token { token_type: SpecTokenType::Dot, next: i + 1 }
    } else if c == ';' {
        Scanned::Token { token_type: SpecTokenType::Semicolon, next: i + 1 }
    } else if c == ':' {
        Scanned::Token { token_type: SpecTokenType::Colon, next: i + 1 }
    } else if c == '!' {
        either(s, i, '=', SpecTokenType::BangEqual, SpecTokenType::Bang)
    } else if c == '=' {
        either(s, i, '=', SpecTokenType::EqualEqual, SpecTokenType::Equal)
    } else if c == '<' {
        either(s, i, '=', SpecTokenType::LessEqual, SpecTokenType::Less)
    } else if c == '>' {
        either(s, i, '=', SpecTokenType::GreaterEqual, SpecTokenType::Greater)
    } else if c == '/' {
        scan_slash(s, i)
    } else if c == '+' {
        if i + 1 < s.len() && s[i + 1] == '+' {
            Scanned::Token { token_type: SpecTokenType::PlusPlus, next: i + 2 }
        } else {
            either(s, i, '=', SpecTokenType::PlusEqual, SpecTokenType::Plus)
        }
    } else if c == '-' {
        if i + 1 < s.len() && s[i + 1] == '-' {
            Scanned::Token { token_type: SpecTokenType::MinusMinus, next: i + 2 }
        } else {
            either(s, i, '=', SpecTokenType::MinusEqual, SpecTokenType::Minus)
        }
    } else if c == '*' {
        if i + 1 < s.len() && s[i + 1] == '*' {
            Scanned::Token { token_type: SpecTokenType::StarStar, next: i + 2 }
        } else {
            either(s, i, '=', SpecTokenType::StarEqual, SpecTokenType::Star)
        }
    } else if c == '"' {
        scan_string(s, i)
    } else if is_digit(c) {
        scan_number(s, i)
    } else if is_ident_start(c) {
        Scanned::Token { token_type: word_token(s.subrange(i, ident_end(s, i + 1))), next: ident_end(s, i + 1) }
    } else {
        Scanned::Error { message: "Unexpected character: "@.push(c), next: i + 1 }
    }
}

/// The span from `start` up to `end`.
pub open spec fn span_of(start: int, end: int) -> Span {
    Span { start: start as usize, end: end as usize }
}

/// The tokens of `s` from offset `i` on, or the first error.  The last token
/// is the end mark, whose span is empty and lies at the end of the source.
pub open spec fn lex_from(s: Seq<char>, i: int) -> Result<Seq<SpecToken>, SpecCompileError>
    decreases s.len() - i,
{
    if 0 <= i < s.len() {
        proof {
            lemma_scan_advances(s, i);
        }
        match scan(s, i) {
            Scanned::Skip { next } => lex_from(s, next),
            Scanned::Token { token_type, next } => match lex_from(s, next) {
                Ok(rest) => Ok(seq![SpecToken { token_type, span: span_of(i, next) }] + rest),
                Err(e) => Err(e),
            },
            Scanned::Error { message, next } => Err(
                SpecCompileError::SyntaxError(message, span_of(i, next)),
            ),
        }
    } else {
        Ok(seq![SpecToken { token_type: SpecTokenType::Eof, span: span_of(s.len() as int, s.len() as int) }])
    }
}

/// The tokens of a source text, or the first error in it.
pub open spec fn spec_lex(s: Seq<char>) -> Result<Seq<SpecToken>, SpecCompileError> {
    lex_from(s, 0)
}

/// A run of digits ends inside the source, and holds digits only.
pub proof fn lemma_digits_end(s: Seq<char>, i: int)
    requires
        0 <= i <= s.len(),
    ensures
        i <= digits_end(s, i) <= s.len(),
        forall|k: int| i <= k < digits_end(s, i) ==> is_digit(#[trigger] s[k]),
        digits_end(s, i) < s.len() ==> !is_digit(s[digits_end(s, i)]),
    decreases s.len() - i,
{
    if i < s.len() && is_digit(s[i]) {
        lemma_digits_end(s, i + 1);
    }
}

/// A run of identifier characters ends inside the source.
pub proof fn lemma_ident_end(s: Seq<char>, i: int)
    requires
        0 <= i <= s.len(),
    ensures
        i <= ident_end(s, i) <= s.len(),
    decreases s.len() - i,
{
    if i < s.len() && is_ident_continue(s[i]) {
        lemma_ident_end(s, i + 1);
    }
}

/// A line comment ends inside the source.
pub proof fn lemma_line_comment_end(s: Seq<char>, i: int)
    requires
        0 <= i <= s.len(),
    ensures
        i <= line_comment_end(s, i) <= s.len(),
    decreases s.len() - i,
{
    if i < s.len() && s[i] != '\n' {
        lemma_line_comment_end(s, i + 1);
    }
}

/// A block comment ends inside the source.
pub proof fn lemma_block_comment_end(s: Seq<char>, i: int)
    requires
        0 <= i <= s.len(),
    ensures
        i <= block_comment_end(s, i) <= s.len(),
    decreases s.len() - i,
{
    if i < s.len() && !(s[i] == '*' && i + 1 < s.len() && s[i + 1] == '/') {
        lemma_block_comment_end(s, i + 1);
    }
}

/// A string literal ends inside the source.
pub proof fn lemma_string_close(s: Seq<char>, i: int)
    requires
        0 <= i <= s.len(),
    ensures
        i <= string_close(s, i) <= s.len(),
    decreases s.len() - i,
{
    if i < s.len() && s[i] != '"' {
        lemma_string_close(s, i + 1);
    }
}

/// Every scan step moves forward and stays inside the source.
pub proof fn lemma_scan_advances(s: Seq<char>, i: int)
    requires
        0 <= i < s.len(),
    ensures
        i < scan(s, i).next() <= s.len(),
{
    lemma_digits_end(s, i + 1);
    lemma_ident_end(s, i + 1);
    lemma_string_close(s, i + 1);
    if i + 1 < s.len() {
        lemma_line_comment_end(s, i + 2);
        lemma_block_comment_end(s, i + 2);
    }
    let e = digits_end(s, i + 1);
    if e < s.len() {
        lemma_digits_end(s, e + 1);
    }
}

/// Whether `tokens` are the tokens of a source of `len` characters, scanned
/// from offset `from` on: every token but the last has a span that is not
/// empty and lies inside the source, the spans follow one another in source
/// order without overlap, and the last token, and no other, is the end
/// mark, whose span is empty and lies at the end of the source.
pub open spec fn well_spanned(tokens: Seq<SpecToken>, from: int, len: int) -> bool {
    &&& tokens.len() > 0
    &&& tokens.last().token_type is Eof
    &&& tokens.last().span == span_of(len, len)
    &&& forall|k: int|
        0 <= k < tokens.len() - 1 ==> {
            &&& !((#[trigger] tokens[k]).token_type is Eof)
            &&& from <= tokens[k].span.start < tokens[k].span.end <= len
            &&& tokens[k].span.end <= tokens[k + 1].span.start
        }
}

/// A token that the scanner finds is never the end mark.
pub proof fn lemma_scan_finds_no_end_mark(s: Seq<char>, i: int)
    requires
        0 <= i < s.len(),
    ensures
        scan(s, i) matches Scanned::Token { token_type, .. } ==> !(token_type is Eof),
{
}

/// The tokens of a source, scanned from offset `i` on, are ordered by their
/// spans, which lie inside the source, and end with the end mark.
pub proof fn lemma_lex_from_is_well_spanned(s: Seq<char>, i: int)
    requires
        0 <= i <= s.len() <= usize::MAX,
    ensures
        lex_from(s, i) matches Ok(tokens) ==> well_spanned(tokens, i, s.len() as int),
    decreases s.len() - i,
{
    if i < s.len() {
        lemma_scan_advances(s, i);
        lemma_scan_finds_no_end_mark(s, i);
        match scan(s, i) {
            Scanned::Skip { next } => {
                lemma_lex_from_is_well_spanned(s, next);
            },
            Scanned::Token { token_type, next } => {
                lemma_lex_from_is_well_spanned(s, next);
                match lex_from(s, next) {
                    Ok(rest) => {
                        let first = SpecToken { token_type, span: span_of(i, next) };
                        let tokens = seq![first] + rest;
                        assert(lex_from(s, i) == Ok::<Seq<SpecToken>, SpecCompileError>(tokens));
                        assert(tokens.last() == rest.last());
                        assert forall|k: int| 0 <= k < tokens.len() - 1 implies {
                            &&& !((#[trigger] tokens[k]).token_type is Eof)
                            &&& i <= tokens[k].span.start < tokens[k].span.end <= s.len()
                            &&& tokens[k].span.end <= tokens[k + 1].span.start
                        } by {
                            if k == 0 {
                                assert(tokens[0] == first);
                                assert(tokens[1] == rest[0]);
                                if rest.len() > 1 {
                                    assert(next <= rest[0].span.start);
                                }
                            } else {
                                assert(tokens[k] == rest[k - 1]);
                                assert(tokens[k + 1] == rest[k]);
                            }
                        }
                    },
                    Err(_) => {},
                }
            },
            Scanned::Error { .. } => {},
        }
    }
}

/// The scanner's interface: the tokens of a source are ordered by their
/// half-open spans, which lie inside the source, and the last of them is the
/// end mark at the end of the source.
pub proof fn lemma_lex_is_well_spanned(s: Seq<char>)
    requires
        s.len() <= usize::MAX,
    ensures
        spec_lex(s) matches Ok(tokens) ==> well_spanned(tokens, 0, s.len() as int),
{
    lemma_lex_from_is_well_spanned(s, 0);
}

/// An error of the scanner lies inside the source.
pub proof fn lemma_lex_error_is_inside(s: Seq<char>, i: int)
    requires
        0 <= i <= s.len() <= usize::MAX,
    ensures
        lex_from(s, i) matches Err(e) ==> e matches SpecCompileError::SyntaxError(_, span) && i
            <= span.start < span.end <= s.len(),
    decreases s.len() - i,
{
    if i < s.len() {
        lemma_scan_advances(s, i);
        match scan(s, i) {
            Scanned::Skip { next } => {
                lemma_lex_error_is_inside(s, next);
            },
            Scanned::Token { next, .. } => {
                lemma_lex_error_is_inside(s, next);
            },
            Scanned::Error { .. } => {},
        }
    }
}

/// Puts the tokens `acc` before the outcome `r` of scanning the rest.
pub open spec fn prepend(
    acc: Seq<SpecToken>,
    r: Result<Seq<SpecToken>, SpecCompileError>,
) -> Result<Seq<SpecToken>, SpecCompileError> {
    match r {
        Ok(rest) => Ok(acc + rest),
        Err(e) => Err(e),
    }
}

/// The mathematical value of what `lex` returns.
pub open spec fn lexed(r: CompileResult<Vec<Token>>) -> Result<Seq<SpecToken>, SpecCompileError> {
    match r {
        Ok(tokens) => Ok(tokens.deep_view()),
        Err(e) => Err(e@),
    }
}

proof fn lemma_decimal_value_grows(digits: Seq<char>, k: int)
    requires
        0 <= k <= digits.len(),
    ensures
        decimal_value(digits.take(k)) <= decimal_value(digits),
    decreases digits.len() - k,
{
    if k < digits.len() {
        lemma_decimal_value_grows(digits, k + 1);
        assert(digits.take(k + 1).drop_last() =~= digits.take(k));
    } else {
        assert(digits.take(k) =~= digits);
    }
}

fn scan_digits(chars: &Vec<char>, from: usize) -> (end: usize)
    requires
        from <= chars.len(),
    ensures
        end == digits_end(chars@, from as int),
        from <= end <= chars.len(),
        forall|k: int| from <= k < end ==> is_digit(#[trigger] chars@[k]),
{
    let mut j = from;
    while j < chars.len() && '0' <= chars[j] && chars[j] <= '9'
        invariant
            from <= j <= chars.len(),
            digits_end(chars@, from as int) == digits_end(chars@, j as int),
            forall|k: int| from <= k < j ==> is_digit(#[trigger] chars@[k]),
        decreases chars.len() - j,
    {
        j += 1;
    }
    j
}

fn is_ident_start_char(c: char) -> (r: bool)
    ensures
        r == is_ident_start(c),
{
    ('a' <= c && c <= 'z') || ('A' <= c && c <= 'Z') || c == '_'
}

fn is_ident_char(c: char) -> (r: bool)
    ensures
        r == is_ident_continue(c),
{
    if c <= '\u{7f}' {
        ('a' <= c && c <= 'z') || ('A' <= c && c <= 'Z') || ('0' <= c && c <= '9') || c == '_'
    } else {
        is_alphanumeric(c)
    }
}

fn scan_ident(chars: &Vec<char>, from: usize) -> (end: usize)
    requires
        from <= chars.len(),
    ensures
        end == ident_end(chars@, from as int),
        from <= end <= chars.len(),
{
    let mut j = from;
    while j < chars.len() && is_ident_char(chars[j])
        invariant
            from <= j <= chars.len(),
            ident_end(chars@, from as int) == ident_end(chars@, j as int),
        decreases chars.len() - j,
    {
        j += 1;
    }
    j
}

fn scan_line_comment(chars: &Vec<char>, from: usize) -> (end: usize)
    requires
        from <= chars.len(),
    ensures
        end == line_comment_end(chars@, from as int),
        from <= end <= chars.len(),
{
    let mut j = from;
    while j < chars.len()
        invariant
            from <= j <= chars.len(),
            line_comment_end(chars@, from as int) == line_comment_end(chars@, j as int),
        decreases chars.len() - j,
    {
        if chars[j] == '\n' {
            return j + 1;
        }
        j += 1;
    }
    j
}

fn scan_block_comment(chars: &Vec<char>, from: usize) -> (end: usize)
    requires
        from <= chars.len(),
    ensures
        end == block_comment_end(chars@, from as int),
        from <= end <= chars.len(),
{
    let mut j = from;
    while j < chars.len()
        invariant
            from <= j <= chars.len(),
            block_comment_end(chars@, from as int) == block_comment_end(chars@, j as int),
        decreases chars.len() - j,
    {
        if chars[j] == '*' && j + 1 < chars.len() && chars[j + 1] == '/' {
            return j + 2;
        }
        j += 1;
    }
    j
}

fn scan_string_close(chars: &Vec<char>, from: usize) -> (end: usize)
    requires
        from <= chars.len(),
    ensures
        end == string_close(chars@, from as int),
        from <= end <= chars.len(),
{
    let mut j = from;
    while j < chars.len() && chars[j] != '"'
        invariant
            from <= j <= chars.len(),
            string_close(chars@, from as int) == string_close(chars@, j as int),
        decreases chars.len() - j,
    {
        j += 1;
    }
    j
}

/// The characters of `chars` from `from` up to `to`, as a string.
fn text_between(chars: &Vec<char>, from: usize, to: usize) -> (r: String)
    requires
        from <= to <= chars.len(),
    ensures
        r@ == chars@.subrange(from as int, to as int),
{
    let mut r = String::new();
    let mut j = from;
    while j < to
        invariant
            from <= j <= to <= chars.len(),
            r@ == chars@.subrange(from as int, j as int),
        decreases to - j,
    {
        r.push(chars[j]);
        j += 1;
        assert(r@ =~= chars@.subrange(from as int, j as int));
    }
    r
}

/// The number that the digits from `from` up to `to` write, when it fits.
fn decimal_between(chars: &Vec<char>, from: usize, to: usize) -> (r: Option<i64>)
    requires
        from <= to <= chars.len(),
        forall|k: int| from <= k < to ==> is_digit(#[trigger] chars@[k]),
    ensures
        r == if decimal_value(chars@.subrange(from as int, to as int)) <= i64::MAX {
            Some(decimal_value(chars@.subrange(from as int, to as int)) as i64)
        } else {
            None
        },
{
    let ghost digits = chars@.subrange(from as int, to as int);
    let mut acc: i64 = 0;
    let mut j = from;
    while j < to
        invariant
            from <= j <= to <= chars.len(),
            digits == chars@.subrange(from as int, to as int),
            forall|k: int| from <= k < to ==> is_digit(#[trigger] chars@[k]),
            0 <= acc,
            acc == decimal_value(digits.take(j - from)),
        decreases to - j,
    {
        let d: i64 = match digit_of(chars[j]) {
            Some(d) => d as i64,
            None => 0,
        };
        proof {
            assert(digits.take(j + 1 - from).drop_last() =~= digits.take(j - from));
            assert(digits.take(j + 1 - from).last() == chars@[j as int]);
            lemma_decimal_value_grows(digits, j + 1 - from);
        }
        if acc > (i64::MAX - d) / 10 {
            return None;
        }
        acc = acc * 10 + d;
        j += 1;
    }
    proof {
        assert(digits.take(to - from) =~= digits);
    }
    Some(acc)
}

fn same_text(s: &String, word: &str) -> (r: bool)
    ensures
        r == (s@ == word@),
{
    *s == String::from_str(word)
}

/// The keyword that `word` spells, or the identifier that it is.
fn token_of_word(word: String) -> (t: TokenType)
    ensures
        t@ == word_token(word@),
{
    if same_text(&word, "else") {
        TokenType::Else
    } else if same_text(&word, "false") {
        TokenType::False
    } else if same_text(&word, "if") {
        TokenType::If
    } else if same_text(&word, "return") {
        TokenType::Return
    } else if same_text(&word, "true") {
        TokenType::True
    } else if same_text(&word, "let") {
        TokenType::Let
    } else if same_text(&word, "while") {
        TokenType::While
    } else if same_text(&word, "for") {
        TokenType::For
    } else if same_text(&word, "func") {
        TokenType::Function
    } else if same_text(&word, "int") {
        TokenType::Int
    } else if same_text(&word, "float") {
        TokenType::Float
    } else if same_text(&word, "string") {
        TokenType::String
    } else if same_text(&word, "bool") {
        TokenType::Bool
    } else if same_text(&word, "null") {
        TokenType::Null
    } else if same_text(&word, "void") {
        TokenType::Void
    } else if same_text(&word, "do") {
        TokenType::Do
    } else if same_text(&word, "until") {
        TokenType::Until
    } else if same_text(&word, "or") {
        TokenType::Or
    } else if same_text(&word, "and") {
        TokenType::And
    } else if same_text(&word, "not") {
        TokenType::Not
    } else {
        TokenType::Ident(word)
    }
}

/// What one scan step found, in executable form.
enum Step {
    Skip(usize),
    Token(TokenType, usize),
    Error(String, usize),
}

impl View for Step {
    type V = Scanned;

    closed spec fn view(&self) -> Scanned {
        match self {
            Step::Skip(next) => Scanned::Skip { next: *next as int },
            Step::Token(t, next) => Scanned::Token { token_type: t@, next: *next as int },
            Step::Error(m, next) => Scanned::Error { message: m@, next: *next as int },
        }
    }
}

fn step_either(chars: &Vec<char>, i: usize, second: char, two: TokenType, one: TokenType) -> (r:
    Step)
    requires
        i < chars.len(),
    ensures
        r@ == either(chars@, i as int, second, two@, one@),
{
    if i + 1 < chars.len() && chars[i + 1] == second {
        Step::Token(two, i + 2)
    } else {
        Step::Token(one, i + 1)
    }
}

fn step_number(chars: &Vec<char>, i: usize) -> (r: Step)
    requires
        i < chars.len(),
        is_digit(chars@[i as int]),
    ensures
        r@ == scan_number(chars@, i as int),
{
    let e = scan_digits(chars, i + 1);
    if e < chars.len() && chars[e] == '.' {
        let f = scan_digits(chars, e + 1);
        Step::Token(TokenType::FloatLiteral(text_between(chars, i, f)), f)
    } else {
        match decimal_between(chars, i, e) {
            Some(n) => Step::Token(TokenType::IntegerLiteral(n), e),
            None => Step::Error(String::from_str("Integer literal out of range"), e),
        }
    }
}

fn step_string(chars: &Vec<char>, i: usize) -> (r: Step)
    requires
        i < chars.len(),
    ensures
        r@ == scan_string(chars@, i as int),
{
    let e = scan_string_close(chars, i + 1);
    let text = text_between(chars, i + 1, e);
    if e < chars.len() {
        Step::Token(TokenType::StringLiteral(text), e + 1)
    } else {
        Step::Token(TokenType::StringLiteral(text), e)
    }
}

fn step_slash(chars: &Vec<char>, i: usize) -> (r: Step)
    requires
        i < chars.len(),
    ensures
        r@ == scan_slash(chars@, i as int),
{
    if i + 1 < chars.len() && chars[i + 1] == '/' {
        Step::Skip(scan_line_comment(chars, i + 2))
    } else if i + 1 < chars.len() && chars[i + 1] == '*' {
        Step::Skip(scan_block_comment(chars, i + 2))
    } else {
        step_either(chars, i, '=', TokenType::SlashEqual, TokenType::Slash)
    }
}

fn step(chars: &Vec<char>, i: usize) -> (r: Step)
    requires
        i < chars.len(),
    ensures
        r@ == scan(chars@, i as int),
{
    let c = chars[i];
    if c == ' ' || c == '\r' || c == '\t' || c == '\n' {
        Step::Skip(i + 1)
    } else if c == '(' {
        Step::Token(TokenType::LeftParen, i + 1)
    } else if c == ')' {
        Step::Token(TokenType::RightParen, i + 1)
    } else if c == '{' {
        Step::Token(TokenType::LeftBrace, i + 1)
    } else if c == '}' {
        Step::Token(TokenType::RightBrace, i + 1)
    } else if c == ',' {
        Step::Token(TokenType::Comma, i + 1)
    } else if c == '.' {
        Step::Token(TokenType::Dot, i + 1)
    } else if c == ';' {
        Step::Token(TokenType::Semicolon, i + 1)
    } else if c == ':' {
        Step::Token(TokenType::Colon, i + 1)
    } else if c == '!' {
        step_either(chars, i, '=', TokenType::BangEqual, TokenType::Bang)
    } else if c == '=' {
        step_either(chars, i, '=', TokenType::EqualEqual, TokenType::Equal)
    } else if c == '<' {
        step_either(chars, i, '=', TokenType::LessEqual, TokenType::Less)
    } else if c == '>' {
        step_either(chars, i, '=', TokenType::GreaterEqual, TokenType::Greater)
    } else if c == '/' {
        step_slash(chars, i)
    } else if c == '+' {
        if i + 1 < chars.len() && chars[i + 1] == '+' {
            Step::Token(TokenType::PlusPlus, i + 2)
        } else {
            step_either(chars, i, '=', TokenType::PlusEqual, TokenType::Plus)
        }
    } else if c == '-' {
        if i + 1 < chars.len() && chars[i + 1] == '-' {
            Step::Token(TokenType::MinusMinus, i + 2)
        } else {
            step_either(chars, i, '=', TokenType::MinusEqual, TokenType::Minus)
        }
    } else if c == '*' {
        if i + 1 < chars.len() && chars[i + 1] == '*' {
            Step::Token(TokenType::StarStar, i + 2)
        } else {
            step_either(chars, i, '=', TokenType::StarEqual, TokenType::Star)
        }
    } else if c == '"' {
        step_string(chars, i)
    } else if '0' <= c && c <= '9' {
        step_number(chars, i)
    } else if is_ident_start_char(c) {
        let e = scan_ident(chars, i + 1);
        Step::Token(token_of_word(text_between(chars, i, e)), e)
    } else {
        let mut message = String::from_str("Unexpected character: ");
        message.push(c);
        Step::Error(message, i + 1)
    }
}

/// Lex a source string into a list of tokens.
///
/// The result is the token sequence that `spec_lex` defines: every token
/// with the half-open span of its characters, in source order, whitespace
/// and comments dropped, and the end mark last.  Text that begins no token, and an integer
/// literal above `i64::MAX`, end the scan with a syntax error at their span.
pub fn lex(source: String) -> (r: CompileResult<Vec<Token>>)
    ensures
        lexed(r) == spec_lex(source@),
        r matches Ok(tokens) ==> well_spanned(tokens.deep_view(), 0, source@.len() as int),
{
    let chars = to_chars(source.as_str());
    let n = chars.len();
    proof {
        lemma_lex_is_well_spanned(source@);
    }
    let mut tokens: Vec<Token> = Vec::new();
    let mut i: usize = 0;
    while i < n
        invariant
            chars@ == source@,
            n == chars.len(),
            i <= n,
            spec_lex(source@) == prepend(tokens.deep_view(), lex_from(source@, i as int)),
        decreases n - i,
    {
        proof {
            lemma_scan_advances(chars@, i as int);
        }
        let ghost before = tokens.deep_view();
        match step(&chars, i) {
            Step::Skip(next) => {
                i = next;
            },
            Step::Token(token_type, next) => {
                let ghost t = SpecToken { token_type: token_type@, span: span_of(i as int, next as int) };
                tokens.push(Token::new(token_type, Span { start: i, end: next }));
                proof {
                    assert(tokens.deep_view() =~= before.push(t));
                    match lex_from(source@, next as int) {
                        Ok(rest) => {
                            assert(before + (seq![t] + rest) =~= before.push(t) + rest);
                        },
                        Err(_) => {},
                    }
                }
                i = next;
            },
            Step::Error(message, next) => {
                return Err(CompileError::SyntaxError(message, Span { start: i, end: next }));
            },
        }
    }
    let ghost before = tokens.deep_view();
    tokens.push(Token::new(TokenType::Eof, Span { start: n, end: n }));
    proof {
        let t = SpecToken { token_type: SpecTokenType::Eof, span: span_of(n as int, n as int) };
        assert(tokens.deep_view() =~= before + seq![t]);
    }
    Ok(tokens)
}

} // verus!
