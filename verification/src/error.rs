//! Source spans and the errors a compilation can end in.

use crate::text::{
    append_nat, append_repeated, append_span, repeated, spec_nat_text, spec_span_text, to_chars,
};
use vstd::prelude::*;
use vstd::string::StringExecFns;

verus! {

/// A half-open range `[start, end)` of character offsets into the source text.
#[derive(Debug, Clone, Copy, PartialEq, Eq, Structural)]
pub struct Span {
    pub start: usize,
    pub end: usize,
}

/// Why a compilation failed.
#[derive(Debug, Clone)]
pub enum CompileError {
    /// The token stream does not match the grammar.
    SyntaxError(String, Span),
    /// The program is grammatical but breaks a scope, type, arity or
    /// return-type rule.
    SemanticError(String, Span),
    /// The module as a whole cannot be finalized.
    ModuleError(String),
}

/// A result whose error is a `CompileError`.
pub type CompileResult<T> = Result<T, CompileError>;

/// The mathematical value of a `CompileError`.
pub enum SpecCompileError {
    SyntaxError(Seq<char>, Span),
    SemanticError(Seq<char>, Span),
    ModuleError(Seq<char>),
}

impl View for CompileError {
    type V = SpecCompileError;

    open spec fn view(&self) -> SpecCompileError {
        match self {
            CompileError::SyntaxError(m, s) => SpecCompileError::SyntaxError(m@, *s),
            CompileError::SemanticError(m, s) => SpecCompileError::SemanticError(m@, *s),
            CompileError::ModuleError(m) => SpecCompileError::ModuleError(m@),
        }
    }
}

/// The offset at which the line that holds offset `pos` begins.
pub open spec fn line_start(s: Seq<char>, pos: int) -> int
    decreases pos,
{
    if pos <= 0 {
        0
    } else if s[pos - 1] == '\n' {
        pos
    } else {
        line_start(s, pos - 1)
    }
}

/// The offset of the line break that ends the line holding offset `pos`, or
/// the end of the text when no line break follows.
pub open spec fn line_end(s: Seq<char>, pos: int) -> int
    decreases s.len() - pos,
{
    if 0 <= pos < s.len() && s[pos] != '\n' {
        line_end(s, pos + 1)
    } else {
        pos
    }
}

/// The number, counted from 1, of the line that holds offset `pos`.
pub open spec fn line_number(s: Seq<char>, pos: int) -> nat
    decreases pos,
{
    if pos <= 0 {
        1
    } else if s[pos - 1] == '\n' {
        line_number(s, pos - 1) + 1
    } else {
        line_number(s, pos - 1)
    }
}

/// The text of the line that begins at `start`, without its line break and
/// without a carriage return just before the line break.
pub open spec fn line_text(s: Seq<char>, start: int) -> Seq<char> {
    let end = line_end(s, start);
    if start < end < s.len() && s[end - 1] == '\r' {
        s.subrange(start, end - 1)
    } else {
        s.subrange(start, end)
    }
}

/// One line of a report: a tab, the line's number, ` | `, its text and a
/// line break.
pub open spec fn numbered_line(s: Seq<char>, start: int, number: nat) -> Seq<char> {
    "\t"@ + spec_nat_text(number) + " | "@ + line_text(s, start) + "\n"@
}

/// Up to `count` lines that come before the line beginning at `start`, whose
/// number is `number`; the nearest line first.
pub open spec fn preceding_lines(s: Seq<char>, start: int, number: nat, count: nat) -> Seq<char>
    decreases count,
{
    if count == 0 || start <= 0 || number <= 1 {
        Seq::empty()
    } else {
        let prev = line_start(s, start - 1);
        numbered_line(s, prev, (number - 1) as nat) + preceding_lines(
            s,
            prev,
            (number - 1) as nat,
            (count - 1) as nat,
        )
    }
}

/// The offset that a report points at: the span's start, or the end of the
/// text when the span begins beyond it.
pub open spec fn report_offset(s: Seq<char>, span: Span) -> int {
    if span.start <= s.len() {
        span.start as int
    } else {
        s.len() as int
    }
}

/// How many characters of the reported line the span covers, and at least 1.
pub open spec fn underline_width(s: Seq<char>, span: Span) -> nat {
    let pos = report_offset(s, span);
    let end = line_end(s, pos);
    let stop = if span.end <= end {
        span.end as int
    } else {
        end
    };
    if stop > pos + 1 {
        (stop - pos) as nat
    } else {
        1
    }
}

/// The first line of a report: the kind, the line and column (both counted
/// from 1) of offset `pos`, the message, and a line break.
pub open spec fn report_head(kind: Seq<char>, message: Seq<char>, s: Seq<char>, pos: int) -> Seq<
    char,
> {
    kind + " at "@ + spec_nat_text(line_number(s, pos)) + ":"@ + spec_nat_text(
        (pos - line_start(s, pos) + 1) as nat,
    ) + ": "@ + message + "\n"@
}

/// The row under the reported line: blanks up to the column of offset `pos`,
/// then `width` carets.
pub open spec fn underline(s: Seq<char>, pos: int, width: nat) -> Seq<char> {
    "\t"@ + repeated(' ', spec_nat_text(line_number(s, pos)).len() + 3) + repeated(
        ' ',
        (pos - line_start(s, pos)) as nat,
    ) + repeated('^', width)
}

/// The report on an error of kind `kind` with message `message` at `span` in
/// the source `s`:
/// the kind, the line and column (both counted from 1) of the span's start,
/// and the message; up to three lines that precede the reported line, nearest
/// first; the reported line; and a row of `^` under the columns that the span
/// covers on that line.
pub open spec fn spec_report(kind: Seq<char>, message: Seq<char>, span: Span, s: Seq<char>) -> Seq<
    char,
> {
    let pos = report_offset(s, span);
    let start = line_start(s, pos);
    let number = line_number(s, pos);
    report_head(kind, message, s, pos) + preceding_lines(s, start, number, 3) + numbered_line(
        s,
        start,
        number,
    ) + underline(s, pos, underline_width(s, span))
}

impl SpecCompileError {
    /// The error as one line: its kind, its span and its message.
    pub open spec fn text(self) -> Seq<char> {
        match self {
            SpecCompileError::SyntaxError(m, span) => "Syntax error at "@ + spec_span_text(span)
                + ": "@ + m,
            SpecCompileError::SemanticError(m, span) => "Semantic error at "@ + spec_span_text(
                span,
            ) + ": "@ + m,
            SpecCompileError::ModuleError(m) => "Module error: "@ + m,
        }
    }

    /// The error as a report that shows where in `source` it lies.  A module
    /// error has no place in the source and is reported as one line.
    pub open spec fn text_with_source(self, source: Seq<char>) -> Seq<char> {
        match self {
            SpecCompileError::SyntaxError(m, span) => spec_report(
                "Syntax error"@,
                m,
                span,
                source,
            ),
            SpecCompileError::SemanticError(m, span) => spec_report(
                "Semantic error"@,
                m,
                span,
                source,
            ),
            SpecCompileError::ModuleError(m) => "Module error: "@ + m,
        }
    }
}

fn find_line_start(chars: &Vec<char>, pos: usize) -> (start: usize)
    requires
        pos <= chars.len(),
    ensures
        start == line_start(chars@, pos as int),
        start <= pos,
{
    let mut j = pos;
    while j > 0 && chars[j - 1] != '\n'
        invariant
            j <= pos <= chars.len(),
            line_start(chars@, pos as int) == line_start(chars@, j as int),
        decreases j,
    {
        j -= 1;
    }
    j
}

fn find_line_end(chars: &Vec<char>, pos: usize) -> (end: usize)
    requires
        pos <= chars.len(),
    ensures
        end == line_end(chars@, pos as int),
        pos <= end <= chars.len(),
{
    let mut j = pos;
    while j < chars.len() && chars[j] != '\n'
        invariant
            pos <= j <= chars.len(),
            line_end(chars@, pos as int) == line_end(chars@, j as int),
        decreases chars.len() - j,
    {
        j += 1;
    }
    j
}

fn find_line_number(chars: &Vec<char>, pos: usize) -> (number: u128)
    requires
        pos <= chars.len(),
    ensures
        number == line_number(chars@, pos as int),
        1 <= number <= pos + 1,
{
    let mut number: u128 = 1;
    let mut j: usize = 0;
    while j < pos
        invariant
            j <= pos <= chars.len(),
            number == line_number(chars@, j as int),
            1 <= number <= j + 1,
        decreases pos - j,
    {
        if chars[j] == '\n' {
            number += 1;
        }
        j += 1;
    }
    number
}

fn append_between(r: &mut String, chars: &Vec<char>, from: usize, to: usize)
    requires
        from <= to <= chars.len(),
    ensures
        final(r)@ == old(r)@ + chars@.subrange(from as int, to as int),
{
    let mut j = from;
    while j < to
        invariant
            from <= j <= to <= chars.len(),
            r@ == old(r)@ + chars@.subrange(from as int, j as int),
        decreases to - j,
    {
        r.push(chars[j]);
        j += 1;
        assert(r@ =~= old(r)@ + chars@.subrange(from as int, j as int));
    }
}

fn append_numbered_line(r: &mut String, chars: &Vec<char>, start: usize, number: u128)
    requires
        start <= chars.len(),
    ensures
        final(r)@ == old(r)@ + numbered_line(chars@, start as int, number as nat),
{
    r.append("\t");
    append_nat(r, number);
    r.append(" | ");
    let end = find_line_end(chars, start);
    if start < end && end < chars.len() && chars[end - 1] == '\r' {
        append_between(r, chars, start, end - 1);
    } else {
        append_between(r, chars, start, end);
    }
    r.append("\n");
    assert(final(r)@ =~= old(r)@ + numbered_line(chars@, start as int, number as nat));
}

fn append_head(r: &mut String, kind: &str, message: &String, chars: &Vec<char>, pos: usize)
    requires
        pos <= chars.len(),
    ensures
        final(r)@ == old(r)@ + report_head(kind@, message@, chars@, pos as int),
{
    let start = find_line_start(chars, pos);
    let number = find_line_number(chars, pos);
    r.append(kind);
    r.append(" at ");
    append_nat(r, number);
    r.append(":");
    append_nat(r, (pos - start) as u128 + 1);
    r.append(": ");
    r.append(message.as_str());
    r.append("\n");
    assert(final(r)@ =~= old(r)@ + report_head(kind@, message@, chars@, pos as int));
}

fn append_preceding(r: &mut String, chars: &Vec<char>, start: usize, number: u128)
    requires
        start <= chars.len(),
        1 <= number,
    ensures
        final(r)@ == old(r)@ + preceding_lines(chars@, start as int, number as nat, 3),
{
    let mut line = start;
    let mut n = number;
    let mut left: u8 = 3;
    while left > 0 && line > 0 && n > 1
        invariant
            line <= chars.len(),
            1 <= n,
            left <= 3,
            old(r)@ + preceding_lines(chars@, start as int, number as nat, 3) == r@
                + preceding_lines(chars@, line as int, n as nat, left as nat),
        decreases left,
    {
        let prev = find_line_start(chars, line - 1);
        let ghost before = r@;
        append_numbered_line(r, chars, prev, n - 1);
        proof {
            let this = numbered_line(chars@, prev as int, (n - 1) as nat);
            let rest = preceding_lines(chars@, prev as int, (n - 1) as nat, (left - 1) as nat);
            assert(before + (this + rest) =~= (before + this) + rest);
        }
        line = prev;
        n = n - 1;
        left = left - 1;
    }
    assert(r@ =~= old(r)@ + preceding_lines(chars@, start as int, number as nat, 3));
}

fn append_underline(r: &mut String, chars: &Vec<char>, pos: usize, width: usize)
    requires
        pos <= chars.len(),
    ensures
        final(r)@ == old(r)@ + underline(chars@, pos as int, width as nat),
{
    let start = find_line_start(chars, pos);
    let number = find_line_number(chars, pos);
    r.append("\t");
    let mut numeral = String::new();
    append_nat(&mut numeral, number);
    let digits = to_chars(numeral.as_str());
    assert(digits@ =~= spec_nat_text(number as nat));
    append_repeated(r, ' ', digits.len());
    append_repeated(r, ' ', 3);
    append_repeated(r, ' ', pos - start);
    append_repeated(r, '^', width);
    proof {
        let k = spec_nat_text(number as nat).len();
        assert(repeated(' ', k) + repeated(' ', 3) =~= repeated(' ', k + 3));
        assert(final(r)@ =~= old(r)@ + underline(chars@, pos as int, width as nat));
    }
}

fn append_report(r: &mut String, kind: &str, message: &String, span: Span, chars: &Vec<char>)
    ensures
        final(r)@ == old(r)@ + spec_report(kind@, message@, span, chars@),
{
    let pos = if span.start <= chars.len() {
        span.start
    } else {
        chars.len()
    };
    let start = find_line_start(chars, pos);
    let end = find_line_end(chars, pos);
    let number = find_line_number(chars, pos);
    let stop = if span.end <= end {
        span.end
    } else {
        end
    };
    let width = if stop > pos && stop - pos > 1 {
        stop - pos
    } else {
        1
    };
    append_head(r, kind, message, chars, pos);
    append_preceding(r, chars, start, number);
    append_numbered_line(r, chars, start, number);
    append_underline(r, chars, pos, width);
    assert(final(r)@ =~= old(r)@ + spec_report(kind@, message@, span, chars@));
}

impl CompileError {
    /// The error as one line: its kind, its span and its message.
    pub fn to_string(&self) -> (r: String)
        ensures
            r@ == self@.text(),
    {
        match self {
            CompileError::SyntaxError(m, span) => {
                let mut r = String::from_str("Syntax error at ");
                append_span(&mut r, *span);
                r.append(": ");
                r.append(m.as_str());
                assert(r@ =~= self@.text());
                r
            },
            CompileError::SemanticError(m, span) => {
                let mut r = String::from_str("Semantic error at ");
                append_span(&mut r, *span);
                r.append(": ");
                r.append(m.as_str());
                assert(r@ =~= self@.text());
                r
            },
            CompileError::ModuleError(m) => {
                let mut r = String::from_str("Module error: ");
                r.append(m.as_str());
                r
            },
        }
    }

    /// To string with source: the error as a report that shows where in
    /// `source` it lies.  The span counts characters of `source`; one that
    /// begins beyond the text is reported at its end.
    pub fn to_string_with_source(&self, source: &str) -> (r: String)
        ensures
            r@ == self@.text_with_source(source@),
    {
        let mut r = String::new();
        match self {
            CompileError::SyntaxError(m, span) => {
                let chars = to_chars(source);
                append_report(&mut r, "Syntax error", m, *span, &chars);
                assert(r@ =~= self@.text_with_source(source@));
            },
            CompileError::SemanticError(m, span) => {
                let chars = to_chars(source);
                append_report(&mut r, "Semantic error", m, *span, &chars);
                assert(r@ =~= self@.text_with_source(source@));
            },
            CompileError::ModuleError(m) => {
                r.append("Module error: ");
                r.append(m.as_str());
                assert(r@ =~= self@.text_with_source(source@));
            },
        }
        r
    }
}

} // verus!
