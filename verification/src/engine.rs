//! Trusted boundary to the two solving engines of the `rsat` crate. Each
//! wrapper makes one engine call and converts between the crate's opaque
//! types and this library's plain values; everything stated here was read
//! off the engine's source and is believed, not proved.
//!
//! The two engines are intentionally asymmetric: the complete
//! (conflict-driven) engine is built incrementally — variables first, then
//! clauses — while the local-search engine ingests its formula wholesale.

use crate::model::{
    all_clauses_sat, clause_pairs, occurrences_bounded, pairs_satisfiable, Clause, Literal,
    ProofEvent, Solution,
};
use crate::emit::{events_bounded, lits_bounded};
use vstd::prelude::*;

verus! {

/// The most literal occurrences of one variable the local-search engine is
/// given. The engine scores a candidate flip as `0.5^make / 3.7^break` in
/// 32-bit floating point, where `make` and `break` count clauses that
/// change status, so both are at most the flipped variable's occurrence
/// count; within this bound every score is at least `(0.5 / 3.7)^51`,
/// above the smallest positive 32-bit float, so the engine's weighted
/// sampling always has a non-zero weight and cannot abort.
pub const MAX_VAR_OCCURRENCES: usize = 51;

#[verifier::external_type_specification]
#[verifier::external_body]
pub struct ExSolverOptions(rsat::cdcl::SolverOptions);

#[verifier::external_type_specification]
#[verifier::external_body]
pub struct ExCdclSolver(rsat::cdcl::Solver);

#[verifier::external_type_specification]
#[verifier::external_body]
pub struct ExSlsSolver(rsat::sls::Solver);

/// Whether an options value asks the complete engine to capture its proof
/// trace.
pub uninterp spec fn options_capture(o: rsat::cdcl::SolverOptions) -> bool;

/// Whether the complete engine is capturing its proof trace.
pub uninterp spec fn cdcl_capture(s: rsat::cdcl::Solver) -> bool;

/// How many variables the complete engine holds.
pub uninterp spec fn cdcl_var_count(s: rsat::cdcl::Solver) -> nat;

/// The clauses submitted to the complete engine so far, in submission
/// order, each as a sequence of (variable index, negated) pairs. This is
/// the formula the engine is asked to decide; internally the engine
/// normalizes and rewrites its clause store, which is not modelled.
pub uninterp spec fn cdcl_clauses(s: rsat::cdcl::Solver) -> Seq<Seq<(usize, bool)>>;

/// How many variables the local-search engine holds.
pub uninterp spec fn sls_var_count(s: rsat::sls::Solver) -> nat;

/// The clauses the local-search engine holds, in insertion order, each as
/// a sequence of (variable index, negated) pairs.
pub uninterp spec fn sls_clauses(s: rsat::sls::Solver) -> Seq<Seq<(usize, bool)>>;

/// Relies on rsat::cdcl::SolverOptions::default and the public
/// `capture_drat` field: the default options with trace capture switched
/// as requested.
#[verifier::external_body]
pub(crate) fn capture_options(capture: bool) -> (o: rsat::cdcl::SolverOptions)
    ensures
        options_capture(o) == capture,
{
    let mut o = rsat::cdcl::SolverOptions::default();
    o.capture_drat = capture;
    o
}

/// Relies on rsat::cdcl::Solver::new: a fresh solver holds no variables
/// and captures its trace exactly when the options say so.
#[verifier::external_body]
pub(crate) fn cdcl_new(o: rsat::cdcl::SolverOptions) -> (s: rsat::cdcl::Solver)
    ensures
        cdcl_capture(s) == options_capture(o),
        cdcl_var_count(s) == 0,
        cdcl_clauses(s) == Seq::<Seq<(usize, bool)>>::empty(),
{
    rsat::cdcl::Solver::new(o)
}

/// Relies on rsat::cdcl::Solver::new_var: adds exactly one variable. The
/// bound keeps the solver's two watch lists per variable within address
/// range, so the call returns rather than aborting on exhausted capacity.
#[verifier::external_body]
pub(crate) fn cdcl_new_var(s: &mut rsat::cdcl::Solver)
    requires
        cdcl_var_count(*old(s)) < usize::MAX / 2,
    ensures
        cdcl_var_count(*final(s)) == cdcl_var_count(*old(s)) + 1,
        cdcl_capture(*final(s)) == cdcl_capture(*old(s)),
        cdcl_clauses(*final(s)) == cdcl_clauses(*old(s)),
{
    let _ = s.new_var();
}

/// Relies on rsat::cdcl::Solver::add_clause and solhop_types::Lit::new
/// (which packs `2 * index + sign` into one machine word): registers one
/// clause; variable count and capture flag are untouched. Literals must
/// reference variables the solver holds, or the engine would index its
/// watch lists out of bounds.
#[verifier::external_body]
pub(crate) fn cdcl_add_clause(s: &mut rsat::cdcl::Solver, c: &Clause)
    requires
        lits_bounded(c.lits@, cdcl_var_count(*old(s))),
        lits_bounded(c.lits@, (usize::MAX / 2 + 1) as nat),
    ensures
        cdcl_var_count(*final(s)) == cdcl_var_count(*old(s)),
        cdcl_capture(*final(s)) == cdcl_capture(*old(s)),
        cdcl_clauses(*final(s)) == cdcl_clauses(*old(s)).push(clause_pairs(*c)),
{
    let lits = c.lits.iter().map(
        |l: &Literal| solhop_types::Lit::new(solhop_types::Var::new(l.index), l.negated),
    ).collect();
    s.add_clause(lits);
}

/// Relies on rsat::cdcl::Solver::solve and the documented meaning of
/// solhop_types::Solution: `Sat` carries "a satisfying model for the
/// formula" — one value per variable, satisfying every submitted clause —
/// and `Unsat` means "the formula is unsatisfiable", which is claimed here
/// only when no assumptions narrow the search; the complete engine never
/// answers `Best` or `Unknown`.
#[verifier::external_body]
pub(crate) fn cdcl_solve(s: &mut rsat::cdcl::Solver, assumptions: &Vec<Literal>) -> (r: Solution)
    requires
        lits_bounded(assumptions@, cdcl_var_count(*old(s))),
        lits_bounded(assumptions@, (usize::MAX / 2 + 1) as nat),
    ensures
        cdcl_var_count(*final(s)) == cdcl_var_count(*old(s)),
        cdcl_capture(*final(s)) == cdcl_capture(*old(s)),
        r is Sat || r is Unsat,
        r matches Solution::Sat(a) ==> a@.len() == cdcl_var_count(*old(s)) && all_clauses_sat(
            a@,
            cdcl_clauses(*old(s)),
        ),
        assumptions@.len() == 0 && r is Unsat ==> !pairs_satisfiable(
            cdcl_var_count(*old(s)),
            cdcl_clauses(*old(s)),
        ),
{
    let assumps = assumptions.iter().map(
        |l: &Literal| solhop_types::Lit::new(solhop_types::Var::new(l.index), l.negated),
    ).collect();
    match s.solve(assumps) {
        solhop_types::Solution::Unsat => Solution::Unsat,
        solhop_types::Solution::Best(a) => Solution::Best(a),
        solhop_types::Solution::Sat(a) => Solution::Sat(a),
        solhop_types::Solution::Unknown => Solution::Unknown,
    }
}

/// Relies on rsat::cdcl::Solver::drat_clauses, rsat::cdcl::DratClause and
/// the solhop_types::Lit accessors `var`, `index` and `sign`: consumes the
/// solver and hands out the captured trace, present exactly when capture
/// was enabled. A literal unpacks to `raw >> 1`, so every extracted index
/// is at most half the machine word's range.
#[verifier::external_body]
pub(crate) fn cdcl_drat_events(s: rsat::cdcl::Solver) -> (r: Option<Vec<ProofEvent>>)
    ensures
        r is Some <==> cdcl_capture(s),
        r matches Some(evs) ==> events_bounded(evs@, (usize::MAX / 2 + 1) as nat),
{
    match s.drat_clauses() {
        None => None,
        Some(cs) => Some(
            cs.into_iter().map(|dc| {
                let (del, ls) = match dc {
                    rsat::cdcl::DratClause::Add(ls) => (false, ls),
                    rsat::cdcl::DratClause::Delete(ls) => (true, ls),
                };
                let lits = ls.iter().map(
                    |l| Literal { index: l.var().index(), negated: l.sign() },
                ).collect();
                if del { ProofEvent::Delete(Clause { lits }) } else { ProofEvent::Add(Clause { lits }) }
            }).collect(),
        ),
    }
}

/// Relies on rsat::sls::Solver::new_from_buf_reader and the DIMACS header
/// grammar it parses: a lone header line declaring `n_vars` variables and
/// no clauses yields a solver holding exactly that variable count and an
/// empty clause list.
#[verifier::external_body]
pub(crate) fn sls_new(n_vars: usize) -> (s: rsat::sls::Solver)
    ensures
        sls_var_count(s) == n_vars,
        sls_clauses(s) == Seq::<Seq<(usize, bool)>>::empty(),
{
    let header = format!("p cnf {} 0", n_vars);
    rsat::sls::Solver::new_from_buf_reader(&mut header.as_bytes())
}

/// Relies on rsat::sls::Solver::add_clause and solhop_types::Lit::new:
/// appends one clause to the formula; the variable count is untouched.
#[verifier::external_body]
pub(crate) fn sls_add_clause(s: &mut rsat::sls::Solver, c: &Clause)
    requires
        lits_bounded(c.lits@, (usize::MAX / 2 + 1) as nat),
    ensures
        sls_var_count(*final(s)) == sls_var_count(*old(s)),
        sls_clauses(*final(s)) == sls_clauses(*old(s)).push(clause_pairs(*c)),
{
    let lits = c.lits.iter().map(
        |l: &Literal| solhop_types::Lit::new(solhop_types::Var::new(l.index), l.negated),
    ).collect();
    s.add_clause(lits);
}

/// Relies on rsat::sls::Solver::local_search with the exponential scoring
/// policy, this driver's fixed choice: tries `max_tries` random restarts
/// of `max_flips` flips each and answers `Sat` with a model of one value
/// per variable as soon as every clause is satisfied, else `Best` with the
/// least-violating model seen, also one value per variable. The formula is
/// only read. Every clause must be non-empty and reference held variables:
/// on an always-violated empty clause the engine's weighted flip selection
/// can find no candidate and aborts instead of returning. The occurrence
/// bound keeps every floating-point flip score non-zero (see
/// `MAX_VAR_OCCURRENCES`), ruling out the engine's other abort: on a
/// formula where one flip breaks enough clauses, `3.7^break` overflows to
/// infinity, the selected clause's scores all round to zero, and the
/// engine's weighted sampling aborts instead of returning.
#[verifier::external_body]
pub(crate) fn sls_local_search(
    s: &mut rsat::sls::Solver,
    max_tries: u32,
    max_flips: u32,
    parallel: bool,
) -> (r: Solution)
    requires
        forall|i: int|
            0 <= i < sls_clauses(*old(s)).len() ==> {
                let cl = #[trigger] sls_clauses(*old(s))[i];
                cl.len() > 0 && forall|j: int|
                    0 <= j < cl.len() ==> (#[trigger] cl[j]).0 < sls_var_count(*old(s))
            },
        occurrences_bounded(sls_clauses(*old(s)), MAX_VAR_OCCURRENCES as nat),
    ensures
        sls_var_count(*final(s)) == sls_var_count(*old(s)),
        sls_clauses(*final(s)) == sls_clauses(*old(s)),
        r is Sat || r is Best,
        r matches Solution::Sat(a) ==> a@.len() == sls_var_count(*old(s)) && all_clauses_sat(
            a@,
            sls_clauses(*old(s)),
        ),
        r matches Solution::Best(a) ==> a@.len() == sls_var_count(*old(s)),
{
    match s.local_search(max_tries, max_flips, rsat::sls::ScoreFnType::Exp, parallel) {
        solhop_types::Solution::Unsat => Solution::Unsat,
        solhop_types::Solution::Best(a) => Solution::Best(a),
        solhop_types::Solution::Sat(a) => Solution::Sat(a),
        solhop_types::Solution::Unknown => Solution::Unknown,
    }
}

} // verus!
