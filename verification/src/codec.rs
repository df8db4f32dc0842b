//! The signed 1-based decimal encoding of literals, the decimal byte
//! rendering used by the certificate and the output protocol, and the
//! round-trip laws of the encoding.

use crate::model::Literal;
use vstd::prelude::*;

verus! {

/// The external signed encoding of a literal: `-(index + 1)` when negated,
/// `index + 1` otherwise. Never zero, so a `0` can terminate a line.
pub open spec fn lit_code(l: Literal) -> int {
    if l.negated {
        -(l.index + 1)
    } else {
        l.index + 1
    }
}

/// The literal a signed code denotes: variable `abs(c) - 1`, negated when
/// the code is negative. Inverse of `lit_code` on non-zero codes.
pub open spec fn lit_of_code(c: int) -> Literal {
    if c < 0 {
        Literal { index: (-c - 1) as usize, negated: true }
    } else {
        Literal { index: (c - 1) as usize, negated: false }
    }
}

/// The ASCII byte of a decimal digit.
pub open spec fn digit_byte(d: nat) -> u8
    recommends
        d < 10,
{
    (0x30 + d) as u8
}

/// The decimal ASCII rendering of a natural number, most significant digit
/// first, with no leading zeros (a single `0` for zero).
pub open spec fn dec_bytes(n: nat) -> Seq<u8>
    decreases n,
{
    if n < 10 {
        seq![digit_byte(n)]
    } else {
        dec_bytes(n / 10) + seq![digit_byte(n % 10)]
    }
}

/// The ASCII token of a signed code: a minus sign before the decimal
/// rendering of the magnitude when negative.
pub open spec fn code_token(c: int) -> Seq<u8> {
    if c < 0 {
        seq![0x2du8] + dec_bytes((-c) as nat)
    } else {
        dec_bytes(c as nat)
    }
}

/// The ASCII token of a literal.
pub open spec fn lit_token(l: Literal) -> Seq<u8> {
    code_token(lit_code(l))
}

/// Every byte of a decimal rendering is an ASCII digit.
pub proof fn lemma_dec_bytes_digits(n: nat)
    ensures
        forall|i: int| 0 <= i < dec_bytes(n).len() ==> 0x30 <= #[trigger] dec_bytes(n)[i] <= 0x39,
    decreases n,
{
    if n >= 10 {
        lemma_dec_bytes_digits(n / 10);
        assert forall|i: int| 0 <= i < dec_bytes(n).len() implies 0x30 <= #[trigger] dec_bytes(
            n,
        )[i] <= 0x39 by {
            if i < dec_bytes(n / 10).len() {
                assert(dec_bytes(n)[i] == dec_bytes(n / 10)[i]);
            } else {
                assert(dec_bytes(n)[i] == digit_byte(n % 10));
            }
        }
    }
}

/// Every byte of a literal token is a digit or the minus sign; in
/// particular no token contains a space, a `0`-terminator follower or a
/// newline that the surrounding format relies on.
pub proof fn lemma_lit_token_bytes(l: Literal)
    ensures
        forall|i: int|
            0 <= i < lit_token(l).len() ==> (0x30 <= #[trigger] lit_token(l)[i] <= 0x39
                || lit_token(l)[i] == 0x2d),
{
    if lit_code(l) < 0 {
        lemma_dec_bytes_digits((-lit_code(l)) as nat);
    } else {
        lemma_dec_bytes_digits(lit_code(l) as nat);
    }
}

/// Round trip, encoding first: decoding the code of any literal yields the
/// literal back.
pub proof fn lemma_code_of_literal_round_trip(l: Literal)
    requires
        l.index < usize::MAX,
    ensures
        lit_of_code(lit_code(l)) == l,
{
}

/// Round trip, decoding first: encoding the literal a non-zero in-range
/// code denotes yields the code back.
pub proof fn lemma_literal_of_code_round_trip(c: int)
    requires
        c != 0,
        -(usize::MAX as int) <= c <= usize::MAX as int,
    ensures
        lit_code(lit_of_code(c)) == c,
{
}

/// Appends the decimal ASCII rendering of `n` to `out`.
pub fn push_decimal(n: usize, out: &mut Vec<u8>)
    ensures
        final(out)@ == old(out)@ + dec_bytes(n as nat),
    decreases n,
{
    if n < 10 {
        out.push(0x30 + n as u8);
    } else {
        push_decimal(n / 10, out);
        out.push(0x30 + (n % 10) as u8);
        assert(out@ =~= old(out)@ + dec_bytes(n as nat));
    }
}

/// Appends the signed decimal token of a literal to `out`.
pub fn push_literal_token(l: &Literal, out: &mut Vec<u8>)
    requires
        l.index < usize::MAX,
    ensures
        final(out)@ == old(out)@ + lit_token(*l),
{
    if l.negated {
        out.push(0x2d);
    }
    push_decimal(l.index + 1, out);
    assert(out@ =~= old(out)@ + lit_token(*l));
}

/// The signed 64-bit value of a literal's encoding.
pub fn encode_literal(l: &Literal) -> (r: i64)
    requires
        l.index + 1 <= i64::MAX,
    ensures
        r == lit_code(*l),
{
    if l.negated {
        -((l.index as i64) + 1)
    } else {
        (l.index as i64) + 1
    }
}

/// The literal a signed 64-bit encoding denotes.
pub fn decode_literal(c: i64) -> (r: Literal)
    requires
        c != 0,
        i64::MIN < c,
        -(usize::MAX as int) <= c <= usize::MAX as int,
    ensures
        r == lit_of_code(c as int),
        lit_code(r) == c,
{
    if c < 0 {
        Literal { index: ((-c) as usize) - 1, negated: true }
    } else {
        Literal { index: (c as usize) - 1, negated: false }
    }
}

} // verus!
