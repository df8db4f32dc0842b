//! The solving driver: validates a configuration, builds the chosen
//! engine's input, invokes the search, and hands back the verdict together
//! with the captured proof trace when there is one.

use crate::emit::{events_bounded, lits_bounded};
use crate::engine::{
    capture_options, cdcl_add_clause, cdcl_capture, cdcl_clauses, cdcl_drat_events, cdcl_new,
    cdcl_new_var, cdcl_solve, cdcl_var_count, sls_add_clause, sls_clauses, sls_local_search,
    sls_new, sls_var_count, MAX_VAR_OCCURRENCES,
};
use crate::model::{
    clause_pairs, instance_clauses, lit_pair, occurrences_bounded, satisfiable, satisfies,
    Instance, Literal, ProofEvent, Solution, SolverError,
};
use vstd::prelude::*;

verus! {

/// The two interchangeable solving engines.
#[derive(Clone, Copy, PartialEq, Eq, Structural, Debug)]
pub enum Engine {
    Complete,
    LocalSearch,
}

/// An immutable, validated driver configuration. Built by `configure`;
/// the driver never reads ambient state.
#[derive(Clone, Copy, PartialEq, Eq, Structural, Debug)]
pub struct DriverConfig {
    pub engine: Engine,
    pub parallel: bool,
    pub max_tries: u32,
    pub max_flips: u32,
}

/// Default try budget for the local-search engine.
pub const DEFAULT_MAX_TRIES: u32 = 100;

/// Default flip budget for the local-search engine.
pub const DEFAULT_MAX_FLIPS: u32 = 1000;

/// Validates an engine selection before anything is constructed.
/// Selector `1` is the complete engine, which rejects a parallel request;
/// selector `2` is the local-search engine, which accepts the parallel
/// flag and demands positive try and flip budgets; anything else names no
/// engine at all.
pub fn configure(alg: u32, parallel: bool, max_tries: u32, max_flips: u32) -> (r: Result<
    DriverConfig,
    SolverError,
>)
    ensures
        alg == 1 && parallel ==> r == Err::<DriverConfig, SolverError>(
            SolverError::UnsupportedConfiguration,
        ),
        alg == 1 && !parallel ==> r == Ok::<DriverConfig, SolverError>(
            (DriverConfig { engine: Engine::Complete, parallel: false, max_tries, max_flips }),
        ),
        alg == 2 && max_tries > 0 && max_flips > 0 ==> r == Ok::<DriverConfig, SolverError>(
            (DriverConfig { engine: Engine::LocalSearch, parallel, max_tries, max_flips }),
        ),
        alg == 2 && (max_tries == 0 || max_flips == 0) ==> r == Err::<DriverConfig, SolverError>(
            SolverError::UnsupportedConfiguration,
        ),
        alg != 1 && alg != 2 ==> r == Err::<DriverConfig, SolverError>(SolverError::InvalidAlgorithm),
{
    if alg == 1 {
        if parallel {
            Err(SolverError::UnsupportedConfiguration)
        } else {
            Ok(DriverConfig { engine: Engine::Complete, parallel: false, max_tries, max_flips })
        }
    } else if alg == 2 {
        if max_tries == 0 || max_flips == 0 {
            Err(SolverError::UnsupportedConfiguration)
        } else {
            Ok(DriverConfig { engine: Engine::LocalSearch, parallel, max_tries, max_flips })
        }
    } else {
        Err(SolverError::InvalidAlgorithm)
    }
}

/// The complete-search path: allocates one engine variable per problem
/// variable (index correspondence 1:1), adds every clause in original
/// order, and solves under the given assumptions — the assumption set is a
/// reserved extension point, empty in this driver. A `Sat` model satisfies
/// the submitted instance; `Unsat` without assumptions means no assignment
/// of the declared length does. The trace comes back exactly when capture
/// was requested.
#[verifier::loop_isolation(false)]
pub fn run_complete(inst: &Instance, assumptions: &Vec<Literal>, capture: bool) -> (r: (
    Solution,
    Option<Vec<ProofEvent>>,
))
    requires
        inst.wf(),
        inst.n_vars <= usize::MAX / 2,
        lits_bounded(assumptions@, inst.n_vars as nat),
    ensures
        r.0 is Sat || r.0 is Unsat,
        r.0 matches Solution::Sat(a) ==> a@.len() == inst.n_vars && satisfies(a@, *inst),
        assumptions@.len() == 0 && r.0 is Unsat ==> !satisfiable(*inst),
        r.1 is Some <==> capture,
        r.1 matches Some(evs) ==> events_bounded(evs@, (usize::MAX / 2 + 1) as nat),
{
    let opts = capture_options(capture);
    let mut s = cdcl_new(opts);
    let mut i: usize = 0;
    while i < inst.n_vars
        invariant
            i <= inst.n_vars,
            cdcl_var_count(s) == i,
            cdcl_capture(s) == capture,
            cdcl_clauses(s) == Seq::<Seq<(usize, bool)>>::empty(),
        decreases inst.n_vars - i,
    {
        cdcl_new_var(&mut s);
        i += 1;
    }
    assert(cdcl_clauses(s) =~= instance_clauses(*inst).take(0));
    let mut j: usize = 0;
    while j < inst.clauses.len()
        invariant
            j <= inst.clauses@.len(),
            cdcl_var_count(s) == inst.n_vars,
            cdcl_capture(s) == capture,
            cdcl_clauses(s) == instance_clauses(*inst).take(j as int),
        decreases inst.clauses@.len() - j,
    {
        cdcl_add_clause(&mut s, &inst.clauses[j]);
        proof {
            assert(instance_clauses(*inst)[j as int] == clause_pairs(inst.clauses@[j as int]));
            assert(instance_clauses(*inst).take(j as int).push(
                clause_pairs(inst.clauses@[j as int]),
            ) =~= instance_clauses(*inst).take(j as int + 1));
        }
        j += 1;
    }
    proof {
        assert(instance_clauses(*inst).take(inst.clauses@.len() as int) =~= instance_clauses(
            *inst,
        ));
    }
    let sol = cdcl_solve(&mut s, assumptions);
    let events = cdcl_drat_events(s);
    (sol, events)
}

/// The local-search path: the engine ingests the formula wholesale and
/// searches within its try and flip budgets. A `Sat` answer is proven by
/// its model; a `Best` answer carries the least-violating model seen and
/// decides nothing. The occurrence bound is the engine's floating-point
/// scoring limit (see `MAX_VAR_OCCURRENCES`); callers test it with
/// `Instance::occurrences_within`.
#[verifier::loop_isolation(false)]
pub fn run_local_search(inst: &Instance, max_tries: u32, max_flips: u32, parallel: bool) -> (r:
    Solution)
    requires
        inst.wf(),
        !inst.has_empty_clause(),
        inst.n_vars <= usize::MAX / 2,
        occurrences_bounded(instance_clauses(*inst), MAX_VAR_OCCURRENCES as nat),
    ensures
        r is Sat || r is Best,
        r matches Solution::Sat(a) ==> a@.len() == inst.n_vars && satisfies(a@, *inst),
        r matches Solution::Best(a) ==> a@.len() == inst.n_vars,
{
    let mut s = sls_new(inst.n_vars);
    assert(sls_clauses(s) =~= instance_clauses(*inst).take(0));
    let mut j: usize = 0;
    while j < inst.clauses.len()
        invariant
            j <= inst.clauses@.len(),
            sls_var_count(s) == inst.n_vars,
            sls_clauses(s) == instance_clauses(*inst).take(j as int),
        decreases inst.clauses@.len() - j,
    {
        sls_add_clause(&mut s, &inst.clauses[j]);
        proof {
            assert(instance_clauses(*inst)[j as int] == clause_pairs(inst.clauses@[j as int]));
            assert(instance_clauses(*inst).take(j as int).push(
                clause_pairs(inst.clauses@[j as int]),
            ) =~= instance_clauses(*inst).take(j as int + 1));
        }
        j += 1;
    }
    proof {
        assert(instance_clauses(*inst).take(inst.clauses@.len() as int) =~= instance_clauses(
            *inst,
        ));
        assert forall|i: int| 0 <= i < sls_clauses(s).len() implies {
            let cl = #[trigger] sls_clauses(s)[i];
            cl.len() > 0 && forall|k: int| 0 <= k < cl.len() ==> (#[trigger] cl[k]).0 < sls_var_count(s)
        } by {
            let cl = sls_clauses(s)[i];
            assert(cl == clause_pairs(inst.clauses@[i]));
            assert(inst.clauses@[i].lits@.len() != 0);
            assert forall|k: int| 0 <= k < cl.len() implies (#[trigger] cl[k]).0 < sls_var_count(
                s,
            ) by {
                assert(cl[k] == lit_pair(inst.clauses@[i].lits@[k]));
                assert(inst.clauses@[i].lits@[k].index < inst.n_vars);
            }
        }
    }
    sls_local_search(&mut s, max_tries, max_flips, parallel)
}

/// Dispatches a validated configuration: the complete engine is built from
/// the normalized instance and solved with an empty assumption set; the
/// local-search engine takes the raw clause list with the budgets and the
/// parallel flag, and never produces a trace.
pub fn run(inst: &Instance, config: &DriverConfig, capture: bool) -> (r: (
    Solution,
    Option<Vec<ProofEvent>>,
))
    requires
        inst.wf(),
        inst.n_vars <= usize::MAX / 2,
        config.engine is LocalSearch ==> !inst.has_empty_clause() && occurrences_bounded(
            instance_clauses(*inst),
            MAX_VAR_OCCURRENCES as nat,
        ),
    ensures
        config.engine is Complete ==> {
            &&& r.0 is Sat || r.0 is Unsat
            &&& r.0 matches Solution::Sat(a) ==> a@.len() == inst.n_vars && satisfies(a@, *inst)
            &&& r.0 is Unsat ==> !satisfiable(*inst)
            &&& r.1 is Some <==> capture
            &&& r.1 matches Some(evs) ==> events_bounded(evs@, (usize::MAX / 2 + 1) as nat)
        },
        config.engine is LocalSearch ==> {
            &&& r.1 is None
            &&& r.0 is Sat || r.0 is Best
            &&& r.0 matches Solution::Sat(a) ==> a@.len() == inst.n_vars && satisfies(a@, *inst)
            &&& r.0 matches Solution::Best(a) ==> a@.len() == inst.n_vars
        },
{
    match config.engine {
        Engine::Complete => {
            let assumptions: Vec<Literal> = Vec::new();
            run_complete(inst, &assumptions, capture)
        },
        Engine::LocalSearch => {
            (run_local_search(inst, config.max_tries, config.max_flips, config.parallel), None)
        },
    }
}

} // verus!
