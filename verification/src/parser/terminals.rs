//! The terminals of the grammar: single tokens and the short fixed
//! sequences of them.

use crate::ast::{AssignOperator, BinaryOperator, SpecParameter, Type};
use crate::error::{Span, SpecCompileError};
use crate::lexer::tokens::{spec_lexeme, SpecToken, SpecTokenType};
use vstd::prelude::*;

verus! {

/// A tree and the position after its last token, or the first error.
pub type Parse<T> = Result<(T, int), SpecCompileError>;

/// The kind of the token at `pos`.  The last token of the sequence, and every
/// position outside it, reads as the end mark.
pub open spec fn kind_at(t: Seq<SpecToken>, pos: int) -> SpecTokenType {
    if 0 <= pos && pos + 1 < t.len() {
        t[pos].token_type
    } else {
        SpecTokenType::Eof
    }
}

/// The span of the token at `pos`; the empty span at 0 outside the sequence.
pub open spec fn span_at(t: Seq<SpecToken>, pos: int) -> Span {
    if 0 <= pos < t.len() {
        t[pos].span
    } else {
        Span { start: 0, end: 0 }
    }
}

/// The span from the start of the token at `first` to the end of the token
/// before `next`.
#[verifier::opaque]
pub open spec fn covering(t: Seq<SpecToken>, first: int, next: int) -> Span {
    Span { start: span_at(t, first).start, end: span_at(t, next - 1).end }
}

/// The error for a token at `pos` that is not what the grammar wants there.
/// It names what was wanted and what was found, and carries the span of the
/// token found.
#[verifier::opaque]
pub open spec fn unexpected(t: Seq<SpecToken>, pos: int, wanted: Seq<char>) -> SpecCompileError {
    SpecCompileError::SyntaxError(
        "Expected "@ + wanted + ", got "@ + spec_lexeme(kind_at(t, pos)),
        span_at(t, pos),
    )
}

/// The position after the token at `pos`, which must be `want`.
#[verifier::opaque]
pub open spec fn expect(t: Seq<SpecToken>, pos: int, want: SpecTokenType) -> Result<
    int,
    SpecCompileError,
> {
    if kind_at(t, pos) == want && !(want is Eof) {
        Ok(pos + 1)
    } else {
        Err(unexpected(t, pos, "token "@ + spec_lexeme(want)))
    }
}

/// `r`, when it ends after `pos` and before the end mark.  Every rule of the
/// grammar takes at least one token and never the end mark, so a result of a
/// rule applied at or after `pos` always passes: that is proved in `laws`,
/// rule by rule.  The guard is here because the rules are defined by
/// recursion on what is left of the tokens.
pub open spec fn forward<T>(t: Seq<SpecToken>, pos: int, r: Parse<T>) -> Parse<T> {
    match r {
        Ok((_, next)) => if pos < next < t.len() {
            r
        } else {
            Err(unexpected(t, pos, "progress"@))
        },
        Err(_) => r,
    }
}

/// A name.
#[verifier::opaque]
pub open spec fn spec_ident(t: Seq<SpecToken>, pos: int) -> Parse<Seq<char>> {
    match kind_at(t, pos) {
        SpecTokenType::Ident(name) => Ok((name, pos + 1)),
        _ => Err(unexpected(t, pos, "ident"@)),
    }
}

/// A type.
#[verifier::opaque]
pub open spec fn spec_type(t: Seq<SpecToken>, pos: int) -> Parse<Type> {
    match kind_at(t, pos) {
        SpecTokenType::Int => Ok((Type::Int, pos + 1)),
        SpecTokenType::Float => Ok((Type::Float, pos + 1)),
        SpecTokenType::String => Ok((Type::String, pos + 1)),
        SpecTokenType::Bool => Ok((Type::Bool, pos + 1)),
        SpecTokenType::Null => Ok((Type::Null, pos + 1)),
        SpecTokenType::Void => Ok((Type::Void, pos + 1)),
        _ => Err(unexpected(t, pos, "type"@)),
    }
}

/// `name : type`
#[verifier::opaque]
pub open spec fn spec_parameter(t: Seq<SpecToken>, pos: int) -> Parse<SpecParameter> {
    match spec_ident(t, pos) {
        Err(e) => Err(e),
        Ok((ident, n1)) => match expect(t, n1, SpecTokenType::Colon) {
            Err(e) => Err(e),
            Ok(n2) => match spec_type(t, n2) {
                Err(e) => Err(e),
                Ok((param_type, n3)) => Ok((SpecParameter { ident, param_type }, n3)),
            },
        },
    }
}

/// The binary operator that a token writes.
pub open spec fn binary_operator_of(k: SpecTokenType) -> Option<BinaryOperator> {
    match k {
        SpecTokenType::Plus => Some(BinaryOperator::Plus),
        SpecTokenType::Minus => Some(BinaryOperator::Minus),
        SpecTokenType::Star => Some(BinaryOperator::Star),
        SpecTokenType::Slash => Some(BinaryOperator::Slash),
        SpecTokenType::StarStar => Some(BinaryOperator::StarStar),
        SpecTokenType::SlashSlash => Some(BinaryOperator::SlashSlash),
        SpecTokenType::EqualEqual => Some(BinaryOperator::EqualEqual),
        SpecTokenType::BangEqual => Some(BinaryOperator::BangEqual),
        SpecTokenType::Greater => Some(BinaryOperator::Greater),
        SpecTokenType::GreaterEqual => Some(BinaryOperator::GreaterEqual),
        SpecTokenType::Less => Some(BinaryOperator::Less),
        SpecTokenType::LessEqual => Some(BinaryOperator::LessEqual),
        SpecTokenType::Or => Some(BinaryOperator::Or),
        SpecTokenType::And => Some(BinaryOperator::And),
        _ => None,
    }
}

/// The compound assignment operator that a token writes.
pub open spec fn assign_operator_of(k: SpecTokenType) -> Option<AssignOperator> {
    match k {
        SpecTokenType::PlusEqual => Some(AssignOperator::PlusEqual),
        SpecTokenType::MinusEqual => Some(AssignOperator::MinusEqual),
        SpecTokenType::StarEqual => Some(AssignOperator::StarEqual),
        SpecTokenType::SlashEqual => Some(AssignOperator::SlashEqual),
        _ => None,
    }
}

/// `: type`, or nothing.
#[verifier::opaque]
pub open spec fn spec_annotation(t: Seq<SpecToken>, pos: int) -> Parse<Option<Type>> {
    if kind_at(t, pos) == SpecTokenType::Colon {
        match spec_type(t, pos + 1) {
            Err(e) => Err(e),
            Ok((ty, next)) => Ok((Some(ty), next)),
        }
    } else {
        Ok((None, pos))
    }
}

/// The position after a simple statement whose last expression ends at
/// `pos`: after the `;` that must stand there when the statement is
/// `terminated`, and `pos` itself otherwise.
#[verifier::opaque]
pub open spec fn spec_terminator(t: Seq<SpecToken>, pos: int, terminated: bool) -> Result<
    int,
    SpecCompileError,
> {
    if terminated {
        expect(t, pos, SpecTokenType::Semicolon)
    } else {
        Ok(pos)
    }
}

/// A token is taken exactly when it is the one wanted.  It then lies before
/// the end mark, and the position after it is the next one.
pub broadcast proof fn lemma_expect_advances(t: Seq<SpecToken>, pos: int, want: SpecTokenType)
    ensures
        #[trigger] expect(t, pos, want) is Ok <==> kind_at(t, pos) == want && !(want is Eof),
        expect(t, pos, want) is Ok ==> expect(t, pos, want)->Ok_0 == pos + 1 && 0 <= pos && pos + 1
            < t.len(),
{
    reveal(expect);
}

/// A name that is taken lies before the end mark, and the position after it
/// is the next one.
pub broadcast proof fn lemma_ident_advances(t: Seq<SpecToken>, pos: int)
    ensures
        #[trigger] spec_ident(t, pos) is Ok ==> spec_ident(t, pos)->Ok_0.1 == pos + 1 && 0 <= pos
            && pos + 1 < t.len(),
{
    reveal(spec_ident);
}

/// A type that is taken lies before the end mark, and the position after it
/// is the next one.
pub broadcast proof fn lemma_type_advances(t: Seq<SpecToken>, pos: int)
    ensures
        #[trigger] spec_type(t, pos) is Ok ==> spec_type(t, pos)->Ok_0.1 == pos + 1 && 0 <= pos
            && pos + 1 < t.len(),
{
    reveal(spec_type);
}

/// A parameter takes three tokens.
pub broadcast proof fn lemma_parameter_advances(t: Seq<SpecToken>, pos: int)
    ensures
        #[trigger] spec_parameter(t, pos) is Ok ==> spec_parameter(t, pos)->Ok_0.1 == pos + 3 && 0
            <= pos && pos + 3 < t.len(),
{
    reveal(spec_parameter);
    reveal(spec_ident);
    reveal(spec_type);
    reveal(expect);
}

/// A type annotation takes two tokens or none.
pub broadcast proof fn lemma_annotation_advances(t: Seq<SpecToken>, pos: int)
    ensures
        #[trigger] spec_annotation(t, pos) is Ok ==> {
            ||| spec_annotation(t, pos)->Ok_0.1 == pos
            ||| spec_annotation(t, pos)->Ok_0.1 == pos + 2 && 0 <= pos && pos + 2 < t.len()
        },
{
    reveal(spec_annotation);
    reveal(spec_type);
}

pub broadcast group group_leaves_advance {
    lemma_expect_advances,
    lemma_ident_advances,
    lemma_type_advances,
    lemma_parameter_advances,
    lemma_annotation_advances,
}

} // verus!
