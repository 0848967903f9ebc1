use vstd::prelude::*;

use crate::ids::VarId;
use crate::model::{Domain, ObjectiveSense, Sense};
use crate::number::Number;

verus! {

/// One variable of a linear model, as a writer sees it: a column.
#[derive(Clone, Debug)]
pub struct Column {
    pub id: VarId,
    pub name: String,
    pub domain: Domain,
    /// Lower bound (`-inf` when unbounded below).
    pub lb: Number,
    /// Upper bound (`inf` when unbounded above).
    pub ub: Number,
}

/// The linear form of a constraint: `sum(coeff * var) <sense> rhs`, where the
/// constant of the left side has already been moved into `rhs`.
#[derive(Clone, Debug)]
pub struct RowTerms {
    pub coeffs: Vec<(VarId, Number)>,
    pub rhs: Number,
}

/// One constraint of the model: a row.
#[derive(Clone, Debug)]
pub struct Row {
    pub name: String,
    pub sense: Sense,
    /// `None` when the constraint's left side is not linear.
    pub terms: Option<RowTerms>,
}

/// The linear form of an objective: `sum(coeff * var) + constant`.
#[derive(Clone, Debug)]
pub struct ObjectiveTerms {
    pub coeffs: Vec<(VarId, Number)>,
    pub constant: Number,
}

/// The model's objective.
#[derive(Clone, Debug)]
pub struct ObjectiveRow {
    pub sense: ObjectiveSense,
    /// `None` when the objective is not linear.
    pub terms: Option<ObjectiveTerms>,
}

/// What the file writers read of a model: its name, variables in order,
/// constraints in order, and objective (if one is set).
#[derive(Clone, Debug)]
pub struct LinearModel {
    pub name: String,
    pub columns: Vec<Column>,
    pub rows: Vec<Row>,
    pub objective: Option<ObjectiveRow>,
}

/// Position of the first term at or after `i` that names `v`, or the length of
/// `s` when there is none.
pub open spec fn first_index_from(s: Seq<(VarId, Number)>, v: VarId, i: int) -> int
    decreases s.len() - i,
{
    if 0 <= i < s.len() {
        if s[i].0 == v {
            i
        } else {
            first_index_from(s, v, i + 1)
        }
    } else {
        s.len() as int
    }
}

/// The coefficient text of the first term that names `v`, if any.
pub open spec fn coef_of(s: Seq<(VarId, Number)>, v: VarId) -> Option<Seq<char>> {
    let k = first_index_from(s, v, 0);
    if 0 <= k < s.len() {
        Some(s[k].1.text@)
    } else {
        None
    }
}

pub proof fn lemma_first_index_bounds(s: Seq<(VarId, Number)>, v: VarId, i: int)
    requires
        0 <= i <= s.len(),
    ensures
        i <= first_index_from(s, v, i) <= s.len(),
        first_index_from(s, v, i) < s.len() ==> s[first_index_from(s, v, i)].0 == v,
        forall|j: int| i <= j < first_index_from(s, v, i) ==> s[j].0 != v,
    decreases s.len() - i,
{
    if i < s.len() && s[i].0 != v {
        lemma_first_index_bounds(s, v, i + 1);
    }
}

/// Finds the first term of `coeffs` that names `v`.
pub fn find_coef(coeffs: &Vec<(VarId, Number)>, v: VarId) -> (r: Option<usize>)
    ensures
        match r {
            Some(k) => k < coeffs@.len() && k == first_index_from(coeffs@, v, 0),
            None => first_index_from(coeffs@, v, 0) == coeffs@.len(),
        },
{
    let n = coeffs.len();
    let mut i: usize = 0;
    while i < n
        invariant
            n == coeffs@.len(),
            0 <= i <= n,
            first_index_from(coeffs@, v, i as int) == first_index_from(coeffs@, v, 0),
        decreases n - i,
    {
        if coeffs[i].0 == v {
            return Some(i);
        }
        i = i + 1;
    }
    None
}

} // verus!
