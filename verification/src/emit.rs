//! The certificate emitter: serializes a proof trace to the on-disk DRAT
//! byte format, one line per event, in trace order. Events are never
//! reordered, merged or deduplicated; a verifier replaying the certificate
//! must see each deletion at the same logical point the engine stopped
//! relying on that clause.

use crate::codec::{lemma_lit_token_bytes, lit_token, push_literal_token};
use crate::model::{Literal, ProofEvent, Solution};
use vstd::prelude::*;

verus! {

/// The literals an event carries.
pub open spec fn event_lits(ev: ProofEvent) -> Seq<Literal> {
    match ev {
        ProofEvent::Add(c) => c.lits@,
        ProofEvent::Delete(c) => c.lits@,
    }
}

/// Whether the event records a deletion.
pub open spec fn event_is_delete(ev: ProofEvent) -> bool {
    ev is Delete
}

/// Every literal of the sequence references an index below `b`.
pub open spec fn lits_bounded(lits: Seq<Literal>, b: nat) -> bool {
    forall|i: int| 0 <= i < lits.len() ==> (#[trigger] lits[i]).index < b
}

/// Every literal of every event references an index below `b`.
pub open spec fn events_bounded(evs: Seq<ProofEvent>, b: nat) -> bool {
    forall|i: int| 0 <= i < evs.len() ==> lits_bounded(event_lits(#[trigger] evs[i]), b)
}

/// The tokens of a clause body: each literal's signed decimal encoding
/// followed by a space, in stored order.
pub open spec fn lits_tokens(lits: Seq<Literal>) -> Seq<u8>
    decreases lits.len(),
{
    if lits.len() == 0 {
        Seq::empty()
    } else {
        lit_token(lits[0]) + seq![0x20u8] + lits_tokens(lits.drop_first())
    }
}

/// One clause line: the literal tokens terminated by the numeral `0`.
pub open spec fn clause_line(lits: Seq<Literal>) -> Seq<u8> {
    lits_tokens(lits) + seq![0x30u8]
}

/// One certificate line: a deletion is prefixed with the marker `d `.
pub open spec fn event_line(ev: ProofEvent) -> Seq<u8> {
    if event_is_delete(ev) {
        seq![0x64u8, 0x20u8] + clause_line(event_lits(ev))
    } else {
        clause_line(event_lits(ev))
    }
}

/// The whole certificate: one line per event, each ended by a newline, in
/// trace order. An empty trace gives an empty (still valid) certificate.
pub open spec fn proof_file_bytes(evs: Seq<ProofEvent>) -> Seq<u8>
    decreases evs.len(),
{
    if evs.len() == 0 {
        Seq::empty()
    } else {
        event_line(evs[0]) + seq![0x0au8] + proof_file_bytes(evs.drop_first())
    }
}

/// How often the byte `b` occurs in `s`.
pub open spec fn count_byte(s: Seq<u8>, b: u8) -> nat
    decreases s.len(),
{
    if s.len() == 0 {
        0
    } else {
        (if s[0] == b {
            1nat
        } else {
            0nat
        }) + count_byte(s.drop_first(), b)
    }
}

proof fn lemma_count_byte_add(s: Seq<u8>, t: Seq<u8>, b: u8)
    ensures
        count_byte(s + t, b) == count_byte(s, b) + count_byte(t, b),
    decreases s.len(),
{
    if s.len() == 0 {
        assert(s + t =~= t);
    } else {
        assert((s + t).drop_first() =~= s.drop_first() + t);
        lemma_count_byte_add(s.drop_first(), t, b);
    }
}

proof fn lemma_count_byte_absent(s: Seq<u8>, b: u8)
    requires
        forall|i: int| 0 <= i < s.len() ==> s[i] != b,
    ensures
        count_byte(s, b) == 0,
    decreases s.len(),
{
    if s.len() > 0 {
        lemma_count_byte_absent(s.drop_first(), b);
    }
}

proof fn lemma_count_byte_singleton(x: u8, b: u8)
    ensures
        count_byte(seq![x], b) == if x == b {
            1nat
        } else {
            0nat
        },
{
    assert(seq![x].drop_first() =~= Seq::<u8>::empty());
    assert(count_byte(Seq::<u8>::empty(), b) == 0);
    assert(seq![x][0] == x);
}

proof fn lemma_lits_tokens_count_nl(lits: Seq<Literal>)
    ensures
        count_byte(lits_tokens(lits), 0x0a) == 0,
    decreases lits.len(),
{
    if lits.len() > 0 {
        let a = lit_token(lits[0]);
        let s = seq![0x20u8];
        let rest = lits_tokens(lits.drop_first());
        lemma_lit_token_bytes(lits[0]);
        lemma_count_byte_absent(a, 0x0a);
        lemma_count_byte_singleton(0x20, 0x0a);
        lemma_count_byte_add(a, s, 0x0a);
        lemma_count_byte_add(a + s, rest, 0x0a);
        lemma_lits_tokens_count_nl(lits.drop_first());
    }
}

proof fn lemma_event_line_count_nl(ev: ProofEvent)
    ensures
        count_byte(event_line(ev), 0x0a) == 0,
{
    let body = lits_tokens(event_lits(ev));
    lemma_lits_tokens_count_nl(event_lits(ev));
    lemma_count_byte_singleton(0x30, 0x0a);
    lemma_count_byte_add(body, seq![0x30u8], 0x0a);
    if event_is_delete(ev) {
        let marker = seq![0x64u8, 0x20u8];
        assert(marker.drop_first() =~= seq![0x20u8]);
        lemma_count_byte_singleton(0x20, 0x0a);
        lemma_count_byte_add(marker, clause_line(event_lits(ev)), 0x0a);
    }
}

/// The certificate's line count equals the number of emitted events
/// exactly: serialization drops, merges and reorders nothing.
pub proof fn lemma_proof_file_line_count(evs: Seq<ProofEvent>)
    ensures
        count_byte(proof_file_bytes(evs), 0x0a) == evs.len(),
    decreases evs.len(),
{
    if evs.len() > 0 {
        let line = event_line(evs[0]);
        let nl = seq![0x0au8];
        let rest = proof_file_bytes(evs.drop_first());
        lemma_event_line_count_nl(evs[0]);
        lemma_count_byte_singleton(0x0a, 0x0a);
        lemma_count_byte_add(line, nl, 0x0a);
        lemma_count_byte_add(line + nl, rest, 0x0a);
        lemma_proof_file_line_count(evs.drop_first());
    }
}

/// Appending a literal appends its token and a space to the clause body.
pub proof fn lemma_lits_tokens_push(lits: Seq<Literal>, l: Literal)
    ensures
        lits_tokens(lits.push(l)) == lits_tokens(lits) + lit_token(l) + seq![0x20u8],
    decreases lits.len(),
{
    if lits.len() == 0 {
        assert(lits.push(l)[0] == l);
        assert(lits.push(l).drop_first() =~= Seq::<Literal>::empty());
        assert(lits_tokens(Seq::<Literal>::empty()) == Seq::<u8>::empty());
        assert(lits_tokens(lits.push(l)) =~= lits_tokens(lits) + lit_token(l) + seq![0x20u8]);
    } else {
        assert(lits.push(l).drop_first() =~= lits.drop_first().push(l));
        lemma_lits_tokens_push(lits.drop_first(), l);
        assert(lits_tokens(lits.push(l)) =~= lits_tokens(lits) + lit_token(l) + seq![0x20u8]);
    }
}

/// Appends one clause line (no deletion marker, no newline) to `out`.
#[verifier::loop_isolation(false)]
fn push_clause_line(lits: &Vec<Literal>, out: &mut Vec<u8>)
    requires
        lits_bounded(lits@, usize::MAX as nat),
    ensures
        final(out)@ == old(out)@ + clause_line(lits@),
{
    let mut j: usize = 0;
    while j < lits.len()
        invariant
            j <= lits@.len(),
            out@ == old(out)@ + lits_tokens(lits@.take(j as int)),
        decreases lits@.len() - j,
    {
        push_literal_token(&lits[j], out);
        out.push(0x20);
        proof {
            lemma_lits_tokens_push(lits@.take(j as int), lits@[j as int]);
            assert(lits@.take(j as int).push(lits@[j as int]) =~= lits@.take(j as int + 1));
            assert(out@ =~= old(out)@ + lits_tokens(lits@.take(j as int + 1)));
        }
        j += 1;
    }
    out.push(0x30);
    proof {
        assert(lits@.take(lits@.len() as int) =~= lits@);
        assert(out@ =~= old(out)@ + clause_line(lits@));
    }
}

/// Serializes the proof trace: for each event, in trace order, one line —
/// a `d ` prefix for deletions, each literal's signed decimal encoding in
/// stored order, the terminal `0`, a newline.
#[verifier::loop_isolation(false)]
pub fn write_drat_clauses(events: &Vec<ProofEvent>, out: &mut Vec<u8>)
    requires
        events_bounded(events@, usize::MAX as nat),
    ensures
        final(out)@ == old(out)@ + proof_file_bytes(events@),
{
    let mut i: usize = 0;
    while i < events.len()
        invariant
            i <= events@.len(),
            out@ == old(out)@ + proof_file_bytes(events@.take(i as int)),
        decreases events@.len() - i,
    {
        match &events[i] {
            ProofEvent::Add(c) => {
                push_clause_line(&c.lits, out);
            },
            ProofEvent::Delete(c) => {
                out.push(0x64);
                out.push(0x20);
                push_clause_line(&c.lits, out);
            },
        }
        out.push(0x0a);
        proof {
            lemma_proof_file_push(events@.take(i as int), events@[i as int]);
            assert(events@.take(i as int).push(events@[i as int]) =~= events@.take(i as int + 1));
            assert(out@ =~= old(out)@ + proof_file_bytes(events@.take(i as int + 1)));
        }
        i += 1;
    }
    proof {
        assert(events@.take(events@.len() as int) =~= events@);
    }
}

proof fn lemma_proof_file_push(evs: Seq<ProofEvent>, ev: ProofEvent)
    ensures
        proof_file_bytes(evs.push(ev)) == proof_file_bytes(evs) + event_line(ev) + seq![0x0au8],
    decreases evs.len(),
{
    if evs.len() == 0 {
        assert(evs.push(ev)[0] == ev);
        assert(evs.push(ev).drop_first() =~= Seq::<ProofEvent>::empty());
        assert(proof_file_bytes(Seq::<ProofEvent>::empty()) == Seq::<u8>::empty());
        assert(proof_file_bytes(evs.push(ev)) =~= proof_file_bytes(evs) + event_line(ev)
            + seq![0x0au8]);
    } else {
        assert(evs.push(ev).drop_first() =~= evs.drop_first().push(ev));
        lemma_proof_file_push(evs.drop_first(), ev);
        assert(proof_file_bytes(evs.push(ev)) =~= proof_file_bytes(evs) + event_line(ev)
            + seq![0x0au8]);
    }
}

/// The emission gate: produces the certificate bytes exactly when the
/// verdict is `Unsat`, a trace was captured, and a destination was
/// supplied; otherwise a complete no-op. The trace is consumed here,
/// exactly once.
pub fn certificate(sol: &Solution, trace: Option<Vec<ProofEvent>>, destination_supplied: bool) -> (r:
    Option<Vec<u8>>)
    requires
        trace matches Some(evs) ==> events_bounded(evs@, usize::MAX as nat),
    ensures
        r is Some <==> (*sol is Unsat && trace is Some && destination_supplied),
        r matches Some(bytes) ==> trace matches Some(evs) && bytes@ == proof_file_bytes(evs@),
{
    if let Solution::Unsat = sol {
        if destination_supplied {
            if let Some(evs) = trace {
                let mut out: Vec<u8> = Vec::new();
                write_drat_clauses(&evs, &mut out);
                return Some(out);
            }
        }
    }
    None
}

} // verus!
