//! Characters, decimal numerals and string building.

use crate::error::Span;
use vstd::prelude::*;
use vstd::string::StringExecFns;

verus! {

/// `String::push` appends one character to the end of the string.
pub assume_specification[ std::string::String::push ](s: &mut std::string::String, c: char)
    ensures
        final(s)@ == old(s)@.push(c),
;

/// The characters of `s`, in order.
pub fn to_chars(s: &str) -> (v: Vec<char>)
    ensures
        v@ == s@,
{
    let mut v: Vec<char> = Vec::new();
    for c in it: s.chars()
        invariant
            v@ == it.seq().take(it.index() as int),
            it.seq() == s@,
    {
        v.push(c);
    }
    v
}

/// Whether `c` is a decimal digit.
pub open spec fn is_digit(c: char) -> bool {
    '0' <= c <= '9'
}

/// The value of a decimal digit character.
pub open spec fn digit_value(c: char) -> nat
    recommends
        is_digit(c),
{
    (c as int - '0' as int) as nat
}

/// The value of a decimal digit character; `None` for any other character.
pub fn digit_of(c: char) -> (d: Option<u8>)
    ensures
        d == if is_digit(c) {
            Some(digit_value(c) as u8)
        } else {
            None
        },
{
    if '0' <= c && c <= '9' {
        Some((c as u32 - '0' as u32) as u8)
    } else {
        None
    }
}

/// The character that writes the digit `d`.
pub open spec fn digit_char(d: nat) -> char
    recommends
        d < 10,
{
    ('0' as int + d) as char
}

/// The decimal numeral of `n`, without leading zeros.
pub open spec fn spec_nat_text(n: nat) -> Seq<char>
    decreases n,
{
    if n < 10 {
        seq![digit_char(n)]
    } else {
        spec_nat_text(n / 10).push(digit_char(n % 10))
    }
}

/// The decimal numeral of `i`, with a leading `-` when it is negative.
pub open spec fn spec_int_text(i: int) -> Seq<char> {
    if i < 0 {
        seq!['-'] + spec_nat_text((-i) as nat)
    } else {
        spec_nat_text(i as nat)
    }
}

/// A span as it is shown in messages.
pub open spec fn spec_span_text(span: Span) -> Seq<char> {
    "Span { start: "@ + spec_nat_text(span.start as nat) + ", end: "@ + spec_nat_text(
        span.end as nat,
    ) + " }"@
}

/// Appends the decimal numeral of `n` to `s`.
pub fn append_nat(s: &mut String, n: u128)
    ensures
        final(s)@ == old(s)@ + spec_nat_text(n as nat),
    decreases n,
{
    if n >= 10 {
        append_nat(s, n / 10);
    }
    let d: u8 = (n % 10) as u8;
    s.push((d + 48) as char);
    assert(final(s)@ =~= old(s)@ + spec_nat_text(n as nat));
}

/// `n` copies of the character `c`.
pub open spec fn repeated(c: char, n: nat) -> Seq<char> {
    Seq::new(n, |i: int| c)
}

/// Appends `n` copies of `c` to `s`.
pub fn append_repeated(s: &mut String, c: char, n: usize)
    ensures
        final(s)@ == old(s)@ + repeated(c, n as nat),
{
    let mut k: usize = 0;
    while k < n
        invariant
            k <= n,
            s@ == old(s)@ + repeated(c, k as nat),
        decreases n - k,
    {
        s.push(c);
        k += 1;
        assert(s@ =~= old(s)@ + repeated(c, k as nat));
    }
}

/// Appends the decimal numeral of `n` to `s`.
pub fn append_usize(s: &mut String, n: usize)
    ensures
        final(s)@ == old(s)@ + spec_nat_text(n as nat),
{
    append_nat(s, n as u128);
}

/// Appends the decimal numeral of `n` to `s`.
pub fn append_int(s: &mut String, n: i64)
    ensures
        final(s)@ == old(s)@ + spec_int_text(n as int),
{
    if n < 0 {
        s.push('-');
        let m: u128 = (-(n + 1)) as u128 + 1;
        append_nat(s, m);
        assert(final(s)@ =~= old(s)@ + spec_int_text(n as int));
    } else {
        append_nat(s, n as u128);
    }
}

/// Appends a span, as it is shown in messages, to `s`.
pub fn append_span(s: &mut String, span: Span)
    ensures
        final(s)@ == old(s)@ + spec_span_text(span),
{
    s.append("Span { start: ");
    append_usize(s, span.start);
    s.append(", end: ");
    append_usize(s, span.end);
    s.append(" }");
    assert(final(s)@ =~= old(s)@ + spec_span_text(span));
}

} // verus!
