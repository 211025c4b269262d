//! Numbers and bytes as text.

use crate::grammar::{MINUS, ZERO};
use vstd::prelude::*;

verus! {

/// The digits of `n` in base ten, the first one not zero unless `n` is.
pub open spec fn decimal(n: nat) -> Seq<u8>
    decreases n,
{
    if n < 10 {
        seq![(ZERO + n) as u8]
    } else {
        decimal(n / 10).push((ZERO + n % 10) as u8)
    }
}

/// The digits of `n` in base ten, after a sign where `n` is negative.
pub open spec fn signed_decimal(n: int) -> Seq<u8> {
    if n < 0 {
        seq![MINUS] + decimal((-n) as nat)
    } else {
        decimal(n as nat)
    }
}

/// The characters that these bytes are the codes of.
pub open spec fn as_chars(bytes: Seq<u8>) -> Seq<char> {
    Seq::new(bytes.len(), |i: int| bytes[i] as char)
}

/// The digit of base sixteen for a number below sixteen, in lower case.
pub open spec fn hex_digit(n: int) -> char {
    if n < 10 {
        (48 + n) as char
    } else {
        (87 + n) as char
    }
}

/// `String::push`: the string has one more character at its end, the
/// given one.
#[verifier::external_body]
pub(crate) fn push_char(text: &mut String, c: char)
    ensures
        final(text)@ == old(text)@.push(c),
{
    text.push(c);
}

/// Appends the digits of `n` in base ten.
pub(crate) fn push_decimal(text: &mut String, n: u32)
    ensures
        final(text)@ == old(text)@ + as_chars(decimal(n as nat)),
    decreases n,
{
    if n >= 10 {
        push_decimal(text, n / 10);
    }
    let digit = (n % 10) as u8;
    push_char(text, (ZERO + digit) as char);
    proof {
        if n >= 10 {
            assert(as_chars(decimal(n as nat)) =~= as_chars(decimal((n / 10) as nat)).push(
                (ZERO + digit) as char,
            ));
        } else {
            assert(as_chars(decimal(n as nat)) =~= seq![(ZERO + digit) as char]);
        }
        assert(text@ =~= old(text)@ + as_chars(decimal(n as nat)));
    }
}

/// Appends the digits of `n` in base ten, after a sign where `n` is
/// negative.
pub(crate) fn push_signed_decimal(text: &mut String, n: i8)
    ensures
        final(text)@ == old(text)@ + as_chars(signed_decimal(n as int)),
{
    if n < 0 {
        push_char(text, MINUS as char);
        push_decimal(text, (-(n as i32)) as u32);
        assert(as_chars(signed_decimal(n as int)) =~= seq![MINUS as char] + as_chars(
            decimal((-n) as nat),
        ));
        assert(text@ =~= old(text)@ + as_chars(signed_decimal(n as int)));
    } else {
        push_decimal(text, n as u32);
    }
}

/// Appends the digit of base sixteen for `n`.
pub(crate) fn push_hex_digit(text: &mut String, n: u8)
    requires
        n < 16,
    ensures
        final(text)@ == old(text)@.push(hex_digit(n as int)),
{
    if n < 10 {
        push_char(text, (48 + n) as char);
    } else {
        push_char(text, (87 + n) as char);
    }
}

} // verus!
