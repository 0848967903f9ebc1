use vstd::prelude::*;

use std::time::Duration;

use rustc_hash::FxHashMap;

use crate::expr::{valid_id, ExprArena, ExprNode};
use crate::ids::{ConstraintId, ExprId, VarId};
use crate::indexed::IndexedVar;
use crate::number::Number;
use crate::set::{IndexKey, KeyView};
use crate::solver::SolverStatus;

verus! {

/// Values keyed by variable.
pub type VarValues = FxHashMap<VarId, Number>;

/// Values keyed by constraint.
pub type ConstraintValues = FxHashMap<ConstraintId, Number>;

/// Name for what a map of variable values holds: each variable's value, by
/// its text.
pub uninterp spec fn var_values(m: VarValues) -> Map<VarId, Seq<char>>;

/// Name for what a map of constraint values holds: each constraint's value,
/// by its text.
pub uninterp spec fn constraint_values(m: ConstraintValues) -> Map<ConstraintId, Seq<char>>;

pub open spec fn no_var_values() -> Map<VarId, Seq<char>> {
    Map::empty()
}

pub open spec fn no_constraint_values() -> Map<ConstraintId, Seq<char>> {
    Map::empty()
}

/// `FxHashMap::default()` for variable values: an empty map.
#[verifier::external_body]
pub(crate) fn var_values_new() -> (m: VarValues)
    ensures
        var_values(m) == no_var_values(),
{
    FxHashMap::default()
}

/// `HashMap::insert` for variable values: `v` now holds `x`.
#[verifier::external_body]
pub(crate) fn var_values_insert(m: &mut VarValues, v: VarId, x: Number)
    ensures
        var_values(*final(m)) == var_values(*old(m)).insert(v, x.text@),
{
    m.insert(v, x);
}

/// `HashMap::get` for variable values, with the value copied out.
#[verifier::external_body]
fn var_values_get(m: &VarValues, v: VarId) -> (r: Option<Number>)
    ensures
        match r {
            Some(x) => var_values(*m).contains_key(v) && x.text@ == var_values(*m)[v],
            None => !var_values(*m).contains_key(v),
        },
{
    m.get(&v).map(|x| x.copy())
}

/// `FxHashMap::default()` for constraint values: an empty map.
#[verifier::external_body]
pub(crate) fn constraint_values_new() -> (m: ConstraintValues)
    ensures
        constraint_values(m) == no_constraint_values(),
{
    FxHashMap::default()
}

/// `HashMap::insert` for constraint values: `c` now holds `x`.
#[verifier::external_body]
pub(crate) fn constraint_values_insert(m: &mut ConstraintValues, c: ConstraintId, x: Number)
    ensures
        constraint_values(*final(m)) == constraint_values(*old(m)).insert(c, x.text@),
{
    m.insert(c, x);
}

/// `HashMap::get` for constraint values, with the value copied out.
#[verifier::external_body]
fn constraint_values_get(m: &ConstraintValues, c: ConstraintId) -> (r: Option<Number>)
    ensures
        match r {
            Some(x) => constraint_values(*m).contains_key(c) && x.text@ == constraint_values(*m)[c],
            None => !constraint_values(*m).contains_key(c),
        },
{
    m.get(&c).map(|x| x.copy())
}

/// `Duration::ZERO`. The duration is opaque to the proofs, so nothing is
/// stated of it.
#[verifier::external_body]
fn duration_zero() -> Duration {
    Duration::ZERO
}

/// A solver's final result on a model. `primal` and `dual` are sparse maps so
/// a solver that does not return duals (e.g. MILP) can simply leave them
/// empty.
#[derive(Clone, Debug)]
pub struct SolverResult {
    pub status: SolverStatus,
    pub objective: Option<Number>,
    pub primal: VarValues,
    pub dual: ConstraintValues,
    pub reduced_costs: VarValues,
    pub solve_time: Duration,
    pub iterations: u64,
    pub raw_log: Option<String>,
}

/// The value that a map of variable values holds for `v`, if any.
pub open spec fn value_in(m: Map<VarId, Seq<char>>, v: VarId) -> Option<Seq<char>> {
    if m.contains_key(v) {
        Some(m[v])
    } else {
        None
    }
}

/// The primal value of the expression `e` of `arena`: the value of its
/// variable when `e` is a single variable, and nothing otherwise.
pub open spec fn value_of_expr(
    primal: Map<VarId, Seq<char>>,
    arena: Seq<ExprNode>,
    e: ExprId,
) -> Option<Seq<char>> {
    match arena[e.0 as int] {
        ExprNode::Var(v) => value_in(primal, v),
        _ => None,
    }
}

/// An expression that is a single variable `v` has the value stored for `v`
/// itself (not one keyed by the node's position): its value is present
/// exactly when `v` has one, and is then that value. Any other node has no
/// value.
pub proof fn lemma_value_of_variable_node(
    primal: Map<VarId, Seq<char>>,
    arena: Seq<ExprNode>,
    e: ExprId,
)
    requires
        valid_id(arena, e),
    ensures
        arena[e.0 as int] matches ExprNode::Var(v) ==> value_of_expr(primal, arena, e) == (if primal.contains_key(v) {
            Some(primal[v])
        } else {
            None
        }),
        arena[e.0 as int] matches ExprNode::Var(v) ==> value_of_expr(primal, arena, e) == value_in(primal, v),
        !(arena[e.0 as int] is Var) ==> value_of_expr(primal, arena, e) is None,
{
}

pub open spec fn same_value(r: Option<Number>, s: Option<Seq<char>>) -> bool {
    match r {
        Some(x) => s == Some(x.text@),
        None => s is None,
    }
}

impl Default for SolverResult {
    /// Not solved, with no values, no time and no iterations.
    fn default() -> (r: SolverResult)
        ensures
            r.status is NotSolved,
            r.objective is None,
            var_values(r.primal) == no_var_values(),
            constraint_values(r.dual) == no_constraint_values(),
            var_values(r.reduced_costs) == no_var_values(),
            r.iterations == 0,
            r.raw_log is None,
    {
        SolverResult {
            status: SolverStatus::NotSolved,
            objective: None,
            primal: var_values_new(),
            dual: constraint_values_new(),
            reduced_costs: var_values_new(),
            solve_time: duration_zero(),
            iterations: 0,
            raw_log: None,
        }
    }
}

impl SolverResult {
    /// Records the primal value of `v`.
    pub fn set_value(&mut self, v: VarId, x: Number)
        ensures
            var_values(final(self).primal) == var_values(old(self).primal).insert(v, x.text@),
            constraint_values(final(self).dual) == constraint_values(old(self).dual),
            var_values(final(self).reduced_costs) == var_values(old(self).reduced_costs),
    {
        var_values_insert(&mut self.primal, v, x);
    }

    /// Records the dual value of `c`.
    pub fn set_dual(&mut self, c: ConstraintId, x: Number)
        ensures
            constraint_values(final(self).dual) == constraint_values(old(self).dual).insert(c, x.text@),
            var_values(final(self).primal) == var_values(old(self).primal),
            var_values(final(self).reduced_costs) == var_values(old(self).reduced_costs),
    {
        constraint_values_insert(&mut self.dual, c, x);
    }

    /// Look up a primal value by `VarId`.
    pub fn value(&self, id: VarId) -> (r: Option<Number>)
        ensures
            same_value(r, value_in(var_values(self.primal), id)),
    {
        var_values_get(&self.primal, id)
    }

    /// Look up the primal value for an expression that is a single variable.
    /// Returns `None` for any expression that is not a single variable.
    pub fn value_of(&self, arena: &ExprArena, expr: ExprId) -> (r: Option<Number>)
        requires
            valid_id(arena@, expr),
        ensures
            same_value(r, value_of_expr(var_values(self.primal), arena@, expr)),
            arena@[expr.0 as int] matches ExprNode::Var(v) ==> match r {
                Some(x) => var_values(self.primal).contains_key(v) && x.text@ == var_values(
                    self.primal,
                )[v],
                None => !var_values(self.primal).contains_key(v),
            },
            !(arena@[expr.0 as int] is Var) ==> r is None,
    {
        match arena.get(expr) {
            ExprNode::Var(v) => var_values_get(&self.primal, *v),
            _ => None,
        }
    }

    /// Look up the dual value of a constraint.
    pub fn dual_of(&self, c: ConstraintId) -> (r: Option<Number>)
        ensures
            match r {
                Some(x) => constraint_values(self.dual).contains_key(c) && x.text@
                    == constraint_values(self.dual)[c],
                None => !constraint_values(self.dual).contains_key(c),
            },
    {
        constraint_values_get(&self.dual, c)
    }

    /// Look up the primal value for a specific index of an [`IndexedVar`].
    ///
    /// Returns `None` if `key` is not in the variable's set or the solver did
    /// not return a primal value for that scalar.
    pub fn value_of_idx(&self, arena: &ExprArena, var: &IndexedVar, key: IndexKey) -> (r: Option<Number>)
        requires
            forall|k: KeyView| #[trigger] var@.contains_key(k) ==> valid_id(arena@, var@[k]),
        ensures
            same_value(
                r,
                if var@.contains_key(key@) {
                    value_of_expr(var_values(self.primal), arena@, var@[key@])
                } else {
                    None
                },
            ),
    {
        match var.get(key) {
            Some(e) => self.value_of(arena, e),
            None => None,
        }
    }

    /// The primal values of all entries of an [`IndexedVar`] that have one,
    /// paired with their keys, in the order the entries are walked.
    pub fn values_of(&self, arena: &ExprArena, var: &IndexedVar) -> (out: Vec<(IndexKey, Number)>)
        requires
            forall|k: KeyView| #[trigger] var@.contains_key(k) ==> valid_id(arena@, var@[k]),
        ensures
            forall|i: int, j: int| 0 <= i < j < out@.len() ==> (#[trigger] out@[i]).0@ != (#[trigger] out@[j]).0@,
            forall|i: int|
                0 <= i < out@.len() ==> var@.contains_key((#[trigger] out@[i]).0@)
                    && value_of_expr(var_values(self.primal), arena@, var@[out@[i].0@]) == Some(
                    out@[i].1.text@,
                ),
            forall|k: KeyView|
                #[trigger] var@.contains_key(k) && value_of_expr(
                    var_values(self.primal),
                    arena@,
                    var@[k],
                ) is Some ==> exists|i: int| 0 <= i < out@.len() && (#[trigger] out@[i]).0@ == k,
    {
        let entries = var.iter();
        let n = entries.len();
        let mut out: Vec<(IndexKey, Number)> = Vec::new();
        let mut i: usize = 0;
        while i < n
            invariant
                n == entries@.len(),
                0 <= i <= n,
                forall|j: int|
                    0 <= j < entries@.len() ==> var@.contains_key((#[trigger] entries@[j]).0@)
                        && var@[entries@[j].0@] == entries@[j].1,
                forall|k: KeyView| #[trigger] var@.contains_key(k) ==> valid_id(arena@, var@[k]),
                forall|a: int, b: int| 0 <= a < b < entries@.len() ==> (#[trigger] entries@[a]).0@ != (#[trigger] entries@[b]).0@,
                forall|a: int, b: int| 0 <= a < b < out@.len() ==> (#[trigger] out@[a]).0@ != (#[trigger] out@[b]).0@,
                forall|j: int| 0 <= j < out@.len() ==> exists|q: int| 0 <= q < i && (#[trigger] entries@[q]).0@ == (#[trigger] out@[j]).0@,
                forall|j: int|
                    0 <= j < out@.len() ==> var@.contains_key((#[trigger] out@[j]).0@)
                        && value_of_expr(var_values(self.primal), arena@, var@[out@[j].0@])
                        == Some(out@[j].1.text@),
                forall|j: int|
                    0 <= j < i && value_of_expr(
                        var_values(self.primal),
                        arena@,
                        (#[trigger] entries@[j]).1,
                    ) is Some ==> exists|q: int| 0 <= q < out@.len() && (#[trigger] out@[q]).0@ == entries@[j].0@,
            decreases n - i,
        {
            let (k, e) = (&entries[i].0, entries[i].1);
            assert(var@.contains_key(k@));
            match self.value_of(arena, e) {
                Some(x) => {
                    let ghost old_out = out@;
                    out.push((k.copy(), x));
                    proof {
                        assert(out@[old_out.len() as int].0@ == k@);
                        assert forall|a: int| 0 <= a < old_out.len() implies (#[trigger] out@[a]).0@ != k@ by {
                            let q = choose|q: int| 0 <= q < i && (#[trigger] entries@[q]).0@ == old_out[a].0@;
                            assert(entries@[q].0@ != entries@[i as int].0@);
                            assert(out@[a] == old_out[a]);
                        }
                        assert forall|j: int| 0 <= j < out@.len() implies exists|q: int| 0 <= q < i + 1 && (#[trigger] entries@[q]).0@ == (#[trigger] out@[j]).0@ by {
                            if j < old_out.len() {
                                let q = choose|q: int| 0 <= q < i && (#[trigger] entries@[q]).0@ == old_out[j].0@;
                                assert(out@[j] == old_out[j]);
                                assert(entries@[q].0@ == out@[j].0@);
                            } else {
                                assert(entries@[i as int].0@ == out@[j].0@);
                            }
                        }
                        assert forall|j: int|
                            0 <= j < i + 1 && value_of_expr(
                                var_values(self.primal),
                                arena@,
                                (#[trigger] entries@[j]).1,
                            ) is Some implies exists|q: int|
                            0 <= q < out@.len() && (#[trigger] out@[q]).0@ == entries@[j].0@ by {
                            if j == i {
                                assert(out@[old_out.len() as int].0@ == entries@[j].0@);
                            } else {
                                let q = choose|q: int|
                                    0 <= q < old_out.len() && (#[trigger] old_out[q]).0@
                                        == entries@[j].0@;
                                assert(out@[q] == old_out[q]);
                            }
                        }
                    }
                },
                None => {},
            }
            i = i + 1;
        }
        proof {
            assert forall|k: KeyView|
                #[trigger] var@.contains_key(k) && value_of_expr(
                    var_values(self.primal),
                    arena@,
                    var@[k],
                ) is Some implies exists|q: int| 0 <= q < out@.len() && (#[trigger] out@[q]).0@ == k by {
                let j = choose|j: int| 0 <= j < entries@.len() && (#[trigger] entries@[j]).0@ == k;
                assert(value_of_expr(var_values(self.primal), arena@, entries@[j].1) is Some);
            }
        }
        out
    }
}

} // verus!
