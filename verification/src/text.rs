//! Building the text of an output line.
use vstd::prelude::*;
use crate::digest::{hex_char, hex_digit};

verus! {

/// Calls `String::push` of the standard library, which appends one character
/// to the text.
#[verifier::external_body]
pub(crate) fn push_char(text: &mut String, c: char)
    ensures
        final(text)@ == old(text)@.push(c),
{
    text.push(c)
}

/// Calls `String::push_str` of the standard library, which appends the
/// characters of `more` to the text.
#[verifier::external_body]
pub(crate) fn push_text(text: &mut String, more: &str)
    ensures
        final(text)@ == old(text)@ + more@,
{
    text.push_str(more)
}

/// The decimal digits of `n`, without leading zeros.
pub open spec fn decimal_of(n: nat) -> Seq<char>
    decreases n,
{
    if n < 10 {
        seq![hex_char(n as u8)]
    } else {
        decimal_of(n / 10).push(hex_char((n % 10) as u8))
    }
}

/// Appends the decimal digits of `n` to the text.
pub fn push_decimal(text: &mut String, n: u64)
    ensures
        final(text)@ == old(text)@ + decimal_of(n as nat),
    decreases n,
{
    if n >= 10 {
        push_decimal(text, n / 10);
    }
    let ghost before = text@;
    push_char(text, hex_digit((n % 10) as u8));
    proof {
        if n >= 10 {
            assert(before.push(hex_char((n % 10) as u8)) =~= old(text)@ + decimal_of(n as nat));
        } else {
            assert(before.push(hex_char(n as u8)) =~= old(text)@ + decimal_of(n as nat));
        }
    }
}

/// The line that reports candidate `n` with the hex text `hex` of its digest:
/// the number in decimal, a colon, a space, the hex text.
pub open spec fn line_of(n: u64, hex: Seq<char>) -> Seq<char> {
    decimal_of(n as nat) + seq![':', ' '] + hex
}

/// Writes the line that reports candidate `n` with the hex text of its digest.
pub fn format_line(n: u64, hex: &str) -> (line: String)
    ensures
        line@ == line_of(n, hex@),
{
    let mut line = String::new();
    push_decimal(&mut line, n);
    push_char(&mut line, ':');
    push_char(&mut line, ' ');
    push_text(&mut line, hex);
    assert(line@ =~= line_of(n, hex@));
    line
}

} // verus!
