//! The result formatter: renders a verdict to the fixed text protocol,
//! independent of which engine produced it. `Unsat` and `Unknown` are one
//! status line; `Sat` adds a value line; `Best` carries a candidate
//! assignment but keeps the `Unknown` status token, because the candidate
//! was never proven to satisfy the instance.

use crate::codec::{code_token, lit_code, push_literal_token};
use crate::emit::{lemma_lits_tokens_push, lits_tokens};
use crate::model::{Literal, Solution};
use vstd::prelude::*;

verus! {

/// The status line for an unsatisfiable instance.
pub open spec fn status_unsat() -> Seq<u8> {
    seq![
        0x73u8,
        0x20u8,
        0x55u8,
        0x4eu8,
        0x53u8,
        0x41u8,
        0x54u8,
        0x49u8,
        0x53u8,
        0x46u8,
        0x49u8,
        0x41u8,
        0x42u8,
        0x4cu8,
        0x45u8,
        0x0au8,
    ]
}

/// The status line for an undetermined outcome.
pub open spec fn status_unknown() -> Seq<u8> {
    seq![0x73u8, 0x20u8, 0x55u8, 0x4eu8, 0x4bu8, 0x4eu8, 0x4fu8, 0x57u8, 0x4eu8, 0x0au8]
}

/// The status line for a satisfiable instance.
pub open spec fn status_sat() -> Seq<u8> {
    seq![0x73u8, 0x20u8, 0x53u8, 0x41u8, 0x54u8, 0x49u8, 0x53u8, 0x46u8, 0x49u8, 0x41u8, 0x42u8, 0x4cu8, 0x45u8, 0x0au8]
}

/// The literal that position `i` of an assignment denotes on the value
/// line: external variable `i + 1`, negated when the value is false.
pub open spec fn value_lits(a: Seq<bool>) -> Seq<Literal> {
    Seq::new(a.len(), |i: int| Literal { index: i as usize, negated: !a[i] })
}

/// The signed integer that position `i` of an assignment denotes:
/// `i + 1` when true, `-(i + 1)` when false.
pub open spec fn value_codes(a: Seq<bool>) -> Seq<int> {
    Seq::new(a.len(), |i: int| if a[i] { i + 1 } else { -(i + 1) })
}

/// The value line: `v `, one signed token per position followed by a
/// space, then the terminal `0`. No trailing newline.
pub open spec fn value_line_bytes(a: Seq<bool>) -> Seq<u8> {
    seq![0x76u8, 0x20u8] + lits_tokens(value_lits(a)) + seq![0x30u8]
}

/// The full rendering of a verdict under the output protocol.
pub open spec fn solution_bytes(sol: Solution) -> Seq<u8> {
    match sol {
        Solution::Unsat => status_unsat(),
        Solution::Unknown => status_unknown(),
        Solution::Best(a) => status_unknown() + value_line_bytes(a@) + seq![0x0au8],
        Solution::Sat(a) => status_sat() + value_line_bytes(a@) + seq![0x0au8],
    }
}

/// The tokens of a sequence of signed integers, each followed by a space.
pub open spec fn codes_tokens(cs: Seq<int>) -> Seq<u8>
    decreases cs.len(),
{
    if cs.len() == 0 {
        Seq::empty()
    } else {
        code_token(cs[0]) + seq![0x20u8] + codes_tokens(cs.drop_first())
    }
}

proof fn lemma_lits_tokens_as_codes(ls: Seq<Literal>, cs: Seq<int>)
    requires
        cs.len() == ls.len(),
        forall|i: int| 0 <= i < ls.len() ==> cs[i] == lit_code(#[trigger] ls[i]),
    ensures
        lits_tokens(ls) == codes_tokens(cs),
    decreases ls.len(),
{
    if ls.len() > 0 {
        lemma_lits_tokens_as_codes(ls.drop_first(), cs.drop_first());
    }
}

/// Value-line round trip. The rendered line is `v `, then exactly one
/// signed token per assignment position, then the terminal `0`; the token
/// at position `i` has magnitude `i + 1`, and its sign recovers the
/// assigned value exactly.
pub proof fn lemma_value_line_round_trip(a: Seq<bool>)
    requires
        a.len() <= usize::MAX,
    ensures
        value_codes(a).len() == a.len(),
        forall|i: int|
            0 <= i < a.len() ==> (if #[trigger] a[i] {
                value_codes(a)[i] == i + 1
            } else {
                value_codes(a)[i] == -(i + 1)
            }),
        forall|i: int| 0 <= i < a.len() ==> ((#[trigger] value_codes(a)[i] > 0) == a[i]),
        value_line_bytes(a) == seq![0x76u8, 0x20u8] + codes_tokens(value_codes(a)) + seq![0x30u8],
{
    assert forall|i: int| 0 <= i < value_lits(a).len() implies value_codes(a)[i] == lit_code(
        #[trigger] value_lits(a)[i],
    ) by {
        assert(value_lits(a)[i].index == i);
    }
    lemma_lits_tokens_as_codes(value_lits(a), value_codes(a));
}

/// Appends the value line for `a` to `out`.
#[verifier::loop_isolation(false)]
pub fn push_value_line(a: &Vec<bool>, out: &mut Vec<u8>)
    ensures
        final(out)@ == old(out)@ + value_line_bytes(a@),
{
    out.push(0x76u8);
    out.push(0x20u8);
    let ghost prefix = old(out)@ + seq![0x76u8, 0x20u8];
    assert(out@ =~= prefix + lits_tokens(value_lits(a@).take(0)));
    let mut i: usize = 0;
    while i < a.len()
        invariant
            i <= a@.len(),
            out@ == prefix + lits_tokens(value_lits(a@).take(i as int)),
        decreases a@.len() - i,
    {
        let l = Literal { index: i, negated: !a[i] };
        push_literal_token(&l, out);
        out.push(0x20u8);
        proof {
            lemma_lits_tokens_push(value_lits(a@).take(i as int), l);
            assert(value_lits(a@).take(i as int).push(l) =~= value_lits(a@).take(i as int + 1));
            assert(out@ =~= prefix + lits_tokens(value_lits(a@).take(i as int + 1)));
        }
        i += 1;
    }
    out.push(0x30u8);
    proof {
        assert(value_lits(a@).take(a@.len() as int) =~= value_lits(a@));
        assert(out@ =~= old(out)@ + value_line_bytes(a@));
    }
}

fn push_status_unsat(out: &mut Vec<u8>)
    ensures
        final(out)@ == old(out)@ + status_unsat(),
{
    out.push(0x73u8);
    out.push(0x20u8);
    out.push(0x55u8);
    out.push(0x4eu8);
    out.push(0x53u8);
    out.push(0x41u8);
    out.push(0x54u8);
    out.push(0x49u8);
    out.push(0x53u8);
    out.push(0x46u8);
    out.push(0x49u8);
    out.push(0x41u8);
    out.push(0x42u8);
    out.push(0x4cu8);
    out.push(0x45u8);
    out.push(0x0au8);
    assert(out@ =~= old(out)@ + status_unsat());
}

fn push_status_unknown(out: &mut Vec<u8>)
    ensures
        final(out)@ == old(out)@ + status_unknown(),
{
    out.push(0x73u8);
    out.push(0x20u8);
    out.push(0x55u8);
    out.push(0x4eu8);
    out.push(0x4bu8);
    out.push(0x4eu8);
    out.push(0x4fu8);
    out.push(0x57u8);
    out.push(0x4eu8);
    out.push(0x0au8);
    assert(out@ =~= old(out)@ + status_unknown());
}

fn push_status_sat(out: &mut Vec<u8>)
    ensures
        final(out)@ == old(out)@ + status_sat(),
{
    out.push(0x73u8);
    out.push(0x20u8);
    out.push(0x53u8);
    out.push(0x41u8);
    out.push(0x54u8);
    out.push(0x49u8);
    out.push(0x53u8);
    out.push(0x46u8);
    out.push(0x49u8);
    out.push(0x41u8);
    out.push(0x42u8);
    out.push(0x4cu8);
    out.push(0x45u8);
    out.push(0x0au8);
    assert(out@ =~= old(out)@ + status_sat());
}

/// Renders a verdict to the output protocol bytes.
pub fn render_solution(sol: &Solution) -> (out: Vec<u8>)
    ensures
        out@ == solution_bytes(*sol),
{
    let mut out: Vec<u8> = Vec::new();
    match sol {
        Solution::Unsat => {
            push_status_unsat(&mut out);
        },
        Solution::Unknown => {
            push_status_unknown(&mut out);
        },
        Solution::Best(a) => {
            push_status_unknown(&mut out);
            push_value_line(a, &mut out);
            out.push(0x0au8);
            assert(out@ =~= solution_bytes(*sol));
        },
        Solution::Sat(a) => {
            push_status_sat(&mut out);
            push_value_line(a, &mut out);
            out.push(0x0au8);
            assert(out@ =~= solution_bytes(*sol));
        },
    }
    out
}

} // verus!
