//! The in-memory problem model: literals, clauses, instances, the verdict
//! type, proof-trace events, and the driver's error taxonomy, together with
//! the satisfaction predicate and its executable checker.

use vstd::prelude::*;

verus! {

/// A single literal: a 0-based variable index with a polarity flag.
/// `negated == true` means the literal asserts the variable is false.
/// The external 1-based signed encoding of a literal is `-(index + 1)`
/// when negated and `index + 1` otherwise.
#[derive(Clone, Copy, PartialEq, Eq, Structural, Debug)]
pub struct Literal {
    pub index: usize,
    pub negated: bool,
}

/// An ordered disjunction of literals. Order never affects satisfiability
/// but is kept: it is observable through the proof trace.
#[derive(Debug)]
pub struct Clause {
    pub lits: Vec<Literal>,
}

/// A clause-list problem instance. Well-formed when every literal
/// references a variable index below `n_vars`.
#[derive(Debug)]
pub struct Instance {
    pub n_vars: usize,
    pub clauses: Vec<Clause>,
}

/// The verdict an engine reports. `Best` carries a candidate assignment
/// that was never proven to satisfy the instance; it is reported under the
/// same status token as `Unknown`.
#[derive(Debug)]
pub enum Solution {
    Unsat,
    Best(Vec<bool>),
    Sat(Vec<bool>),
    Unknown,
}

/// One entry of the proof trace: a clause the engine started relying on,
/// or one it stopped relying on.
#[derive(Debug)]
pub enum ProofEvent {
    Add(Clause),
    Delete(Clause),
}

/// Every fatal condition the driver can report.
#[derive(Clone, Copy, PartialEq, Eq, Structural, Debug)]
pub enum SolverError {
    InvalidInputFormat,
    InvalidAlgorithm,
    UnsupportedConfiguration,
    FileCreationError,
    UnimplementedFeature,
}

/// A literal reduced to its plain parts: index and polarity.
pub open spec fn lit_pair(l: Literal) -> (usize, bool) {
    (l.index, l.negated)
}

/// A clause as a sequence of plain literal parts.
pub open spec fn clause_pairs(c: Clause) -> Seq<(usize, bool)> {
    c.lits@.map_values(|l: Literal| lit_pair(l))
}

/// The clauses of an instance, each as a sequence of plain literal parts.
pub open spec fn instance_clauses(inst: Instance) -> Seq<Seq<(usize, bool)>> {
    inst.clauses@.map_values(|c: Clause| clause_pairs(c))
}

/// The assignment makes this literal true: the referenced position exists
/// and its value agrees with the literal's polarity.
pub open spec fn pair_sat(a: Seq<bool>, p: (usize, bool)) -> bool {
    p.0 < a.len() && a[p.0 as int] == !p.1
}

/// At least one literal of the clause is satisfied by `a`.
pub open spec fn clause_sat(a: Seq<bool>, c: Seq<(usize, bool)>) -> bool {
    exists|i: int| 0 <= i < c.len() && pair_sat(a, #[trigger] c[i])
}

/// Every clause of `cs` is satisfied by `a`.
pub open spec fn all_clauses_sat(a: Seq<bool>, cs: Seq<Seq<(usize, bool)>>) -> bool {
    forall|i: int| 0 <= i < cs.len() ==> clause_sat(a, #[trigger] cs[i])
}

/// `a` satisfies the instance: every clause has at least one literal whose
/// polarity agrees with the assignment at the referenced variable.
pub open spec fn satisfies(a: Seq<bool>, inst: Instance) -> bool {
    all_clauses_sat(a, instance_clauses(inst))
}

/// Some assignment of length `n` satisfies every clause of `cs`.
pub open spec fn pairs_satisfiable(n: nat, cs: Seq<Seq<(usize, bool)>>) -> bool {
    exists|a: Seq<bool>| a.len() == n && all_clauses_sat(a, cs)
}

/// Some assignment of the instance's declared length satisfies it.
pub open spec fn satisfiable(inst: Instance) -> bool {
    pairs_satisfiable(inst.n_vars as nat, instance_clauses(inst))
}

/// How often variable `v` occurs among the literals of one clause.
pub open spec fn clause_var_count(cl: Seq<(usize, bool)>, v: usize) -> nat
    decreases cl.len(),
{
    if cl.len() == 0 {
        0
    } else {
        (if cl[0].0 == v {
            1nat
        } else {
            0nat
        }) + clause_var_count(cl.drop_first(), v)
    }
}

/// How often variable `v` occurs among the literals of all of `cs`.
pub open spec fn var_occurrences(v: usize, cs: Seq<Seq<(usize, bool)>>) -> nat
    decreases cs.len(),
{
    if cs.len() == 0 {
        0
    } else {
        clause_var_count(cs[0], v) + var_occurrences(v, cs.drop_first())
    }
}

/// No variable occurs more than `k` times over all clauses.
pub open spec fn occurrences_bounded(cs: Seq<Seq<(usize, bool)>>, k: nat) -> bool {
    forall|v: usize| #[trigger] var_occurrences(v, cs) <= k
}

/// A count saturated just above the bound `k`: enough to decide `<= k`.
spec fn count_capped(x: nat, k: nat) -> nat {
    if x <= k {
        x
    } else {
        k + 1
    }
}

proof fn lemma_clause_var_count_push(cl: Seq<(usize, bool)>, p: (usize, bool), v: usize)
    ensures
        clause_var_count(cl.push(p), v) == clause_var_count(cl, v) + (if p.0 == v {
            1nat
        } else {
            0nat
        }),
    decreases cl.len(),
{
    if cl.len() == 0 {
        assert(cl.push(p)[0] == p);
        assert(cl.push(p).drop_first() =~= Seq::<(usize, bool)>::empty());
        assert(clause_var_count(Seq::<(usize, bool)>::empty(), v) == 0);
    } else {
        assert(cl.push(p).drop_first() =~= cl.drop_first().push(p));
        lemma_clause_var_count_push(cl.drop_first(), p, v);
    }
}

proof fn lemma_var_occurrences_push(cs: Seq<Seq<(usize, bool)>>, cl: Seq<(usize, bool)>, v: usize)
    ensures
        var_occurrences(v, cs.push(cl)) == var_occurrences(v, cs) + clause_var_count(cl, v),
    decreases cs.len(),
{
    if cs.len() == 0 {
        assert(cs.push(cl)[0] == cl);
        assert(cs.push(cl).drop_first() =~= Seq::<Seq<(usize, bool)>>::empty());
        assert(var_occurrences(v, Seq::<Seq<(usize, bool)>>::empty()) == 0);
    } else {
        assert(cs.push(cl).drop_first() =~= cs.drop_first().push(cl));
        lemma_var_occurrences_push(cs.drop_first(), cl, v);
    }
}

proof fn lemma_clause_var_count_absent(cl: Seq<(usize, bool)>, v: usize)
    requires
        forall|j: int| 0 <= j < cl.len() ==> (#[trigger] cl[j]).0 != v,
    ensures
        clause_var_count(cl, v) == 0,
    decreases cl.len(),
{
    if cl.len() > 0 {
        lemma_clause_var_count_absent(cl.drop_first(), v);
    }
}

proof fn lemma_var_occurrences_absent(cs: Seq<Seq<(usize, bool)>>, v: usize)
    requires
        forall|i: int, j: int|
            0 <= i < cs.len() && 0 <= j < cs[i].len() ==> (#[trigger] cs[i][j]).0 != v,
    ensures
        var_occurrences(v, cs) == 0,
    decreases cs.len(),
{
    if cs.len() > 0 {
        lemma_clause_var_count_absent(cs[0], v);
        assert forall|i: int, j: int|
            0 <= i < cs.drop_first().len() && 0 <= j < cs.drop_first()[i].len() implies (
        #[trigger] cs.drop_first()[i][j]).0 != v by {
            assert(cs.drop_first()[i] == cs[i + 1]);
        }
        lemma_var_occurrences_absent(cs.drop_first(), v);
    }
}

impl Clause {
    /// Every literal of the clause references a variable below `n_vars`.
    pub open spec fn wf(self, n_vars: nat) -> bool {
        forall|i: int| 0 <= i < self.lits@.len() ==> (#[trigger] self.lits@[i]).index < n_vars
    }
}

impl Instance {
    /// Every literal of every clause references a variable below `n_vars`.
    pub open spec fn wf(self) -> bool {
        forall|i: int|
            0 <= i < self.clauses@.len() ==> (#[trigger] self.clauses@[i]).wf(self.n_vars as nat)
    }

    /// Some clause of the instance has no literals.
    pub open spec fn has_empty_clause(self) -> bool {
        exists|i: int| 0 <= i < self.clauses@.len() && (#[trigger] self.clauses@[i]).lits@.len() == 0
    }

    /// Runtime check for `wf`: callers that receive an instance from an
    /// unverified source test it before handing the instance to the driver.
    #[verifier::loop_isolation(false)]
    pub fn is_well_formed(&self) -> (r: bool)
        ensures
            r == self.wf(),
    {
        let mut i: usize = 0;
        while i < self.clauses.len()
            invariant
                i <= self.clauses@.len(),
                forall|k: int| 0 <= k < i ==> (#[trigger] self.clauses@[k]).wf(self.n_vars as nat),
            decreases self.clauses@.len() - i,
        {
            let c = &self.clauses[i];
            let mut j: usize = 0;
            while j < c.lits.len()
                invariant
                    j <= c.lits@.len(),
                    forall|k: int| 0 <= k < j ==> (#[trigger] c.lits@[k]).index < self.n_vars,
                decreases c.lits@.len() - j,
            {
                if c.lits[j].index >= self.n_vars {
                    assert(!self.clauses@[i as int].wf(self.n_vars as nat));
                    return false;
                }
                j += 1;
            }
            i += 1;
        }
        true
    }

    /// Runtime check: no variable occurs in more than `k` literals over
    /// the whole instance. Callers test this before handing an instance to
    /// a consumer that bounds how often one variable may occur.
    #[verifier::loop_isolation(false)]
    pub fn occurrences_within(&self, k: usize) -> (r: bool)
        requires
            self.wf(),
            k < usize::MAX,
        ensures
            r == occurrences_bounded(instance_clauses(*self), k as nat),
    {
        let mut counts: Vec<usize> = Vec::new();
        while counts.len() < self.n_vars
            invariant
                counts@.len() <= self.n_vars,
                forall|t: int| 0 <= t < counts@.len() ==> counts@[t] == 0,
            decreases self.n_vars - counts@.len(),
        {
            counts.push(0);
        }
        proof {
            assert(instance_clauses(*self).take(0) =~= Seq::<Seq<(usize, bool)>>::empty());
        }
        let mut i: usize = 0;
        while i < self.clauses.len()
            invariant
                i <= self.clauses@.len(),
                counts@.len() == self.n_vars,
                forall|t: int|
                    0 <= t < self.n_vars ==> counts@[t] == count_capped(
                        var_occurrences(t as usize, instance_clauses(*self).take(i as int)),
                        k as nat,
                    ),
            decreases self.clauses@.len() - i,
        {
            let c = &self.clauses[i];
            proof {
                assert(clause_pairs(*c).take(0) =~= Seq::<(usize, bool)>::empty());
                assert(clause_var_count(Seq::<(usize, bool)>::empty(), 0) == 0);
            }
            let mut j: usize = 0;
            while j < c.lits.len()
                invariant
                    j <= c.lits@.len(),
                    counts@.len() == self.n_vars,
                    forall|t: int|
                        0 <= t < self.n_vars ==> counts@[t] == count_capped(
                            var_occurrences(t as usize, instance_clauses(*self).take(i as int))
                                + clause_var_count(clause_pairs(*c).take(j as int), t as usize),
                            k as nat,
                        ),
                decreases c.lits@.len() - j,
            {
                let idx = c.lits[j].index;
                let cur = counts[idx];
                if cur <= k {
                    counts.set(idx, cur + 1);
                }
                proof {
                    assert(clause_pairs(*c)[j as int] == lit_pair(c.lits@[j as int]));
                    assert(clause_pairs(*c).take(j as int).push(clause_pairs(*c)[j as int])
                        =~= clause_pairs(*c).take(j as int + 1));
                    assert forall|t: int|
                        0 <= t < self.n_vars implies counts@[t] == count_capped(
                        var_occurrences(t as usize, instance_clauses(*self).take(i as int))
                            + clause_var_count(clause_pairs(*c).take(j as int + 1), t as usize),
                        k as nat,
                    ) by {
                        lemma_clause_var_count_push(
                            clause_pairs(*c).take(j as int),
                            clause_pairs(*c)[j as int],
                            t as usize,
                        );
                    }
                }
                j += 1;
            }
            proof {
                assert(clause_pairs(*c).take(c.lits@.len() as int) =~= clause_pairs(*c));
                assert(instance_clauses(*self)[i as int] == clause_pairs(*c));
                assert(instance_clauses(*self).take(i as int).push(clause_pairs(*c))
                    =~= instance_clauses(*self).take(i as int + 1));
                assert forall|t: int|
                    0 <= t < self.n_vars implies counts@[t] == count_capped(
                    var_occurrences(t as usize, instance_clauses(*self).take(i as int + 1)),
                    k as nat,
                ) by {
                    lemma_var_occurrences_push(
                        instance_clauses(*self).take(i as int),
                        clause_pairs(*c),
                        t as usize,
                    );
                }
            }
            i += 1;
        }
        proof {
            assert(instance_clauses(*self).take(self.clauses@.len() as int) =~= instance_clauses(
                *self,
            ));
        }
        let mut v: usize = 0;
        while v < self.n_vars
            invariant
                v <= self.n_vars,
                forall|t: usize|
                    t < v ==> #[trigger] var_occurrences(t, instance_clauses(*self)) <= k as nat,
            decreases self.n_vars - v,
        {
            if counts[v] > k {
                proof {
                    assert(var_occurrences(v, instance_clauses(*self)) > k as nat);
                }
                return false;
            }
            v += 1;
        }
        proof {
            assert forall|v2: usize| #[trigger] var_occurrences(v2, instance_clauses(*self))
                <= k as nat by {
                if v2 >= self.n_vars {
                    assert forall|a: int, b: int|
                        0 <= a < instance_clauses(*self).len() && 0 <= b < instance_clauses(
                            *self,
                        )[a].len() implies (#[trigger] instance_clauses(*self)[a][b]).0 != v2 by {
                        assert(instance_clauses(*self)[a] == clause_pairs(self.clauses@[a]));
                        assert(instance_clauses(*self)[a][b] == lit_pair(
                            self.clauses@[a].lits@[b],
                        ));
                        assert(self.clauses@[a].lits@[b].index < self.n_vars);
                    }
                    lemma_var_occurrences_absent(instance_clauses(*self), v2);
                } else {
                    assert(var_occurrences(v2, instance_clauses(*self)) <= k as nat);
                }
            }
        }
        true
    }

    /// Runtime check for `has_empty_clause`.
    #[verifier::loop_isolation(false)]
    pub fn contains_empty_clause(&self) -> (r: bool)
        ensures
            r == self.has_empty_clause(),
    {
        let mut i: usize = 0;
        while i < self.clauses.len()
            invariant
                i <= self.clauses@.len(),
                forall|k: int| 0 <= k < i ==> (#[trigger] self.clauses@[k]).lits@.len() != 0,
            decreases self.clauses@.len() - i,
        {
            if self.clauses[i].lits.len() == 0 {
                return true;
            }
            i += 1;
        }
        false
    }
}

/// Decides whether `a` satisfies every clause of `inst`.
#[verifier::loop_isolation(false)]
pub fn check_assignment(inst: &Instance, a: &Vec<bool>) -> (r: bool)
    ensures
        r == satisfies(a@, *inst),
{
    let mut i: usize = 0;
    while i < inst.clauses.len()
        invariant
            i <= inst.clauses@.len(),
            forall|k: int| 0 <= k < i ==> clause_sat(a@, #[trigger] instance_clauses(*inst)[k]),
        decreases inst.clauses@.len() - i,
    {
        if !check_clause(a, &inst.clauses[i]) {
            assert(!clause_sat(a@, instance_clauses(*inst)[i as int]));
            return false;
        }
        i += 1;
    }
    true
}

/// Decides whether `a` satisfies the single clause `c`.
#[verifier::loop_isolation(false)]
pub fn check_clause(a: &Vec<bool>, c: &Clause) -> (r: bool)
    ensures
        r == clause_sat(a@, clause_pairs(*c)),
{
    let mut j: usize = 0;
    while j < c.lits.len()
        invariant
            j <= c.lits@.len(),
            forall|k: int| 0 <= k < j ==> !pair_sat(a@, #[trigger] clause_pairs(*c)[k]),
        decreases c.lits@.len() - j,
    {
        let l = c.lits[j];
        if l.index < a.len() && a[l.index] == !l.negated {
            assert(pair_sat(a@, clause_pairs(*c)[j as int]));
            return true;
        }
        j += 1;
    }
    false
}

} // verus!
