use solhop::codec::{decode_literal, encode_literal, push_decimal, push_literal_token};
use solhop::driver::{configure, run, run_local_search, DriverConfig, Engine, DEFAULT_MAX_FLIPS, DEFAULT_MAX_TRIES};
use solhop::engine::MAX_VAR_OCCURRENCES;
use solhop::emit::{certificate, write_drat_clauses};
use solhop::format::render_solution;
use solhop::model::{check_assignment, check_clause, Clause, Instance, Literal, ProofEvent, Solution, SolverError};

fn lit(code: i64) -> Literal {
    decode_literal(code)
}

fn clause(codes: &[i64]) -> Clause {
    Clause { lits: codes.iter().map(|&c| lit(c)).collect() }
}

fn instance(n_vars: usize, clauses: &[&[i64]]) -> Instance {
    Instance { n_vars, clauses: clauses.iter().map(|c| clause(c)).collect() }
}

#[test]
fn literal_encoding_concrete() {
    assert_eq!(encode_literal(&Literal { index: 0, negated: false }), 1);
    assert_eq!(encode_literal(&Literal { index: 0, negated: true }), -1);
    assert_eq!(encode_literal(&Literal { index: 4, negated: true }), -5);
    assert_eq!(encode_literal(&Literal { index: 41, negated: false }), 42);
}

#[test]
fn literal_round_trip_all_small_indices() {
    for v in 0..200usize {
        for &p in &[false, true] {
            let l = Literal { index: v, negated: p };
            let code = encode_literal(&l);
            assert_eq!(code, if p { -((v as i64) + 1) } else { (v as i64) + 1 });
            assert_eq!(decode_literal(code), l);
        }
    }
}

#[test]
fn decimal_rendering() {
    let mut out = Vec::new();
    push_decimal(0, &mut out);
    assert_eq!(out, b"0".to_vec());
    out.clear();
    push_decimal(10, &mut out);
    assert_eq!(out, b"10".to_vec());
    out.clear();
    push_decimal(12345, &mut out);
    assert_eq!(out, b"12345".to_vec());
    out.clear();
    push_literal_token(&Literal { index: 9, negated: true }, &mut out);
    assert_eq!(out, b"-10".to_vec());
}

#[test]
fn proof_file_bytes_exact() {
    let events = vec![
        ProofEvent::Add(clause(&[1, -2])),
        ProofEvent::Delete(clause(&[3])),
        ProofEvent::Add(clause(&[])),
    ];
    let mut out = Vec::new();
    write_drat_clauses(&events, &mut out);
    assert_eq!(out, b"1 -2 0\nd 3 0\n0\n".to_vec());
}

#[test]
fn proof_file_line_count_matches_events() {
    let events = vec![
        ProofEvent::Add(clause(&[1, 2, 3])),
        ProofEvent::Delete(clause(&[-1, -2])),
        ProofEvent::Add(clause(&[2])),
        ProofEvent::Delete(clause(&[])),
    ];
    let mut out = Vec::new();
    write_drat_clauses(&events, &mut out);
    let newlines = out.iter().filter(|&&b| b == b'\n').count();
    assert_eq!(newlines, events.len());
}

#[test]
fn proof_file_empty_trace_is_empty() {
    let events: Vec<ProofEvent> = vec![];
    let mut out = Vec::new();
    write_drat_clauses(&events, &mut out);
    assert!(out.is_empty());
}

#[test]
fn render_unsat() {
    assert_eq!(render_solution(&Solution::Unsat), b"s UNSATISFIABLE\n".to_vec());
}

#[test]
fn render_unknown() {
    assert_eq!(render_solution(&Solution::Unknown), b"s UNKNOWN\n".to_vec());
}

#[test]
fn render_sat_value_line() {
    let out = render_solution(&Solution::Sat(vec![true, false, true]));
    assert_eq!(out, b"s SATISFIABLE\nv 1 -2 3 0\n".to_vec());
}

#[test]
fn render_best_uses_unknown_status() {
    let out = render_solution(&Solution::Best(vec![false, true]));
    assert_eq!(out, b"s UNKNOWN\nv -1 2 0\n".to_vec());
}

#[test]
fn value_line_round_trip_concrete() {
    let a = vec![true, true, false, true, false];
    let out = render_solution(&Solution::Sat(a.clone()));
    let text = String::from_utf8(out).unwrap();
    let mut lines = text.lines();
    assert_eq!(lines.next().unwrap(), "s SATISFIABLE");
    let value_line = lines.next().unwrap();
    let tokens: Vec<i64> = value_line
        .split_whitespace()
        .skip(1)
        .map(|t| t.parse().unwrap())
        .collect();
    assert_eq!(tokens.len(), a.len() + 1);
    assert_eq!(*tokens.last().unwrap(), 0);
    for (i, &t) in tokens[..a.len()].iter().enumerate() {
        assert_eq!(t.unsigned_abs() as usize, i + 1);
        assert_eq!(t > 0, a[i]);
    }
}

#[test]
fn configure_complete_rejects_parallel() {
    let r = configure(1, true, DEFAULT_MAX_TRIES, DEFAULT_MAX_FLIPS);
    assert_eq!(r, Err(SolverError::UnsupportedConfiguration));
}

#[test]
fn configure_complete_accepts_serial() {
    let r = configure(1, false, DEFAULT_MAX_TRIES, DEFAULT_MAX_FLIPS);
    assert_eq!(
        r,
        Ok(DriverConfig {
            engine: Engine::Complete,
            parallel: false,
            max_tries: DEFAULT_MAX_TRIES,
            max_flips: DEFAULT_MAX_FLIPS,
        })
    );
}

#[test]
fn configure_unknown_selector() {
    assert_eq!(configure(0, false, 1, 1), Err(SolverError::InvalidAlgorithm));
    assert_eq!(configure(3, false, 1, 1), Err(SolverError::InvalidAlgorithm));
}

#[test]
fn configure_local_search_demands_positive_budgets() {
    assert_eq!(configure(2, false, 0, 1000), Err(SolverError::UnsupportedConfiguration));
    assert_eq!(configure(2, false, 100, 0), Err(SolverError::UnsupportedConfiguration));
    let r = configure(2, true, 1, 1);
    assert_eq!(
        r,
        Ok(DriverConfig { engine: Engine::LocalSearch, parallel: true, max_tries: 1, max_flips: 1 })
    );
}

#[test]
fn default_budgets() {
    assert_eq!(DEFAULT_MAX_TRIES, 100);
    assert_eq!(DEFAULT_MAX_FLIPS, 1000);
}

#[test]
fn check_assignment_concrete() {
    let inst = instance(3, &[&[1, 2], &[-1, 3], &[-2, -3]]);
    assert!(check_assignment(&inst, &vec![true, false, true]));
    assert!(!check_assignment(&inst, &vec![false, false, false]));
    assert!(check_clause(&vec![true, false], &clause(&[-2])));
    assert!(!check_clause(&vec![true, false], &clause(&[2])));
}

#[test]
fn scenario_complete_engine_three_clauses() {
    let inst = instance(3, &[&[1, 2], &[-1, 3], &[-2, -3]]);
    assert!(inst.is_well_formed());
    let cfg = configure(1, false, DEFAULT_MAX_TRIES, DEFAULT_MAX_FLIPS).unwrap();
    let (sol, trace) = run(&inst, &cfg, false);
    assert!(trace.is_none());
    match sol {
        Solution::Sat(a) => {
            assert_eq!(a.len(), 3);
            assert!(check_assignment(&inst, &a));
        }
        Solution::Unsat => {}
        _ => panic!("complete engine must decide"),
    }
}

#[test]
fn scenario_local_search_trivial_instance() {
    let inst = instance(1, &[]);
    let sol = run_local_search(&inst, 1, 1, false);
    match sol {
        Solution::Sat(a) => assert_eq!(a.len(), 1),
        Solution::Best(a) => assert_eq!(a.len(), 1),
        _ => panic!("local search answers Sat or Best"),
    }
}

#[test]
fn local_search_sat_model_satisfies() {
    let inst = instance(2, &[&[1], &[-2]]);
    let cfg = configure(2, false, 10, 50).unwrap();
    let (sol, trace) = run(&inst, &cfg, false);
    assert!(trace.is_none());
    match sol {
        Solution::Sat(a) => {
            assert_eq!(a, vec![true, false]);
            assert!(check_assignment(&inst, &a));
        }
        Solution::Best(a) => assert_eq!(a.len(), 2),
        _ => panic!("local search answers Sat or Best"),
    }
}

#[test]
fn scenario_unsat_with_certificate() {
    let inst = instance(1, &[&[1], &[-1]]);
    let cfg = configure(1, false, DEFAULT_MAX_TRIES, DEFAULT_MAX_FLIPS).unwrap();
    let (sol, trace) = run(&inst, &cfg, true);
    assert!(matches!(sol, Solution::Unsat));
    let trace = trace.expect("capture was enabled");
    let n_events = trace.len();
    let bytes = certificate(&sol, Some(trace), true).expect("certificate is owed");
    let newlines = bytes.iter().filter(|&&b| b == b'\n').count();
    assert_eq!(newlines, n_events);
}

#[test]
fn certificate_gate_conditions() {
    let unsat = Solution::Unsat;
    let sat = Solution::Sat(vec![true]);
    // All three conditions met: a certificate, possibly empty.
    assert_eq!(certificate(&unsat, Some(vec![]), true), Some(vec![]));
    // No destination: no-op.
    assert_eq!(certificate(&unsat, Some(vec![]), false), None);
    // No trace captured: no-op.
    assert_eq!(certificate(&unsat, None, true), None);
    // Not unsatisfiable: no-op.
    assert_eq!(certificate(&sat, Some(vec![]), true), None);
}

#[test]
fn certificate_bytes_from_unsat_run() {
    // The engine refutes {x, -x} before searching: the captured trace is
    // exactly the one added empty clause.
    let inst = instance(1, &[&[1], &[-1]]);
    let cfg = configure(1, false, DEFAULT_MAX_TRIES, DEFAULT_MAX_FLIPS).unwrap();
    let (sol, trace) = run(&inst, &cfg, true);
    let bytes = certificate(&sol, trace, true).expect("certificate is owed");
    assert_eq!(bytes, b"0\n".to_vec());
}

#[test]
fn complete_engine_without_capture_has_no_trace() {
    let inst = instance(1, &[&[1], &[-1]]);
    let cfg = configure(1, false, DEFAULT_MAX_TRIES, DEFAULT_MAX_FLIPS).unwrap();
    let (sol, trace) = run(&inst, &cfg, false);
    assert!(matches!(sol, Solution::Unsat));
    assert!(trace.is_none());
    assert_eq!(certificate(&sol, trace, true), None);
}

#[test]
fn occurrence_bound_check() {
    let sparse = instance(3, &[&[1, 2], &[-1, 3], &[-2, -3]]);
    assert!(sparse.occurrences_within(MAX_VAR_OCCURRENCES));
    assert!(sparse.occurrences_within(2));
    assert!(!sparse.occurrences_within(1));
    // Variable 1 occurs 52 times: one past the engine's scoring bound.
    let many: Vec<&[i64]> = (0..52).map(|_| &[1i64][..]).collect();
    let skewed = instance(1, &many);
    assert!(!skewed.occurrences_within(MAX_VAR_OCCURRENCES));
    assert!(skewed.occurrences_within(52));
}

#[test]
fn instance_validation_helpers() {
    let good = instance(2, &[&[1, -2]]);
    assert!(good.is_well_formed());
    assert!(!good.contains_empty_clause());
    let bad = instance(1, &[&[1, -2]]);
    assert!(!bad.is_well_formed());
    let empty = instance(2, &[&[1], &[]]);
    assert!(empty.contains_empty_clause());
}
