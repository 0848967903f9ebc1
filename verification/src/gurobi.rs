use vstd::prelude::*;
use vstd::string::*;

use crate::model::Domain;
use crate::number::{decimal, nat_digits};
use crate::options::Presolve;
use crate::ids::{ConstraintId, VarId};
use crate::number::Number;
use crate::result::{
    constraint_values, constraint_values_insert, constraint_values_new, no_constraint_values,
    no_var_values, var_values, var_values_insert, var_values_new, ConstraintValues, VarValues,
};
use crate::solver::{linear_kind, ModelKind, SolverStatus};

verus! {

/// Gurobi's variable types.
#[derive(Copy, Clone, Debug, PartialEq, Eq, Structural)]
pub enum GurobiVarType {
    Continuous,
    Integer,
    Binary,
    SemiCont,
    SemiInt,
}

/// The Gurobi type of a variable of the given domain.
pub fn var_type(domain: &Domain) -> (t: GurobiVarType)
    ensures
        domain is Real ==> t is Continuous,
        domain is Integer ==> t is Integer,
        domain is Binary ==> t is Binary,
        domain is SemiContinuous ==> t is SemiCont,
        domain is SemiInteger ==> t is SemiInt,
{
    match domain {
        Domain::Real => GurobiVarType::Continuous,
        Domain::Integer => GurobiVarType::Integer,
        Domain::Binary => GurobiVarType::Binary,
        Domain::SemiContinuous { .. } => GurobiVarType::SemiCont,
        Domain::SemiInteger { .. } => GurobiVarType::SemiInt,
    }
}

/// The name the Gurobi model gives variable `i`: `x<i>`.
pub fn column_name(i: u64) -> (s: String)
    ensures
        s@ == "x"@ + nat_digits(i as nat),
{
    let mut s = String::from_str("x");
    let d = decimal(i);
    s.append(d.as_str());
    s
}

/// The name the Gurobi model gives constraint `j`: `c<j>`.
pub fn row_name(j: u64) -> (s: String)
    ensures
        s@ == "c"@ + nat_digits(j as nat),
{
    let mut s = String::from_str("c");
    let d = decimal(j);
    s.append(d.as_str());
    s
}

/// Gurobi's `Presolve` parameter for a presolve setting: off 0, automatic
/// -1, on (aggressive) 2.
pub fn presolve_code(p: Presolve) -> (v: i32)
    ensures
        p is Off ==> v == 0,
        p is Auto ==> v == -1,
        p is On ==> v == 2,
{
    match p {
        Presolve::Off => 0,
        Presolve::Auto => -1,
        Presolve::On => 2,
    }
}

/// Gurobi's `Threads` parameter for a thread count: the count, capped at
/// `i32::MAX`.
pub fn threads_param(n: u32) -> (v: i32)
    ensures
        v == (if n <= i32::MAX { n as int } else { i32::MAX as int }),
{
    if n <= 0x7fff_ffff {
        n as i32
    } else {
        i32::MAX
    }
}

/// Gurobi's `OutputFlag` parameter: 1 for verbose, 0 for quiet.
pub fn output_flag(verbose: bool) -> (v: i32)
    ensures
        v == (if verbose { 1int } else { 0int }),
{
    if verbose {
        1
    } else {
        0
    }
}

/// The model classes that Gurobi solves only with `NonConvex` set to 2.
pub open spec fn nonlinear_kind(kind: ModelKind) -> bool {
    kind is QP || kind is MIQP || kind is NLP || kind is MINLP
}

/// Whether `NonConvex` must be raised to 2 before solving: for a nonlinear
/// class, unless the current setting is already 2 or more.
pub fn needs_nonconvex(kind: ModelKind, current: i32) -> (b: bool)
    ensures
        b == (nonlinear_kind(kind) && current < 2),
        b <==> (!(kind is LP) && !(kind is MILP) && current < 2),
{
    let nonlinear = match kind {
        ModelKind::QP | ModelKind::MIQP | ModelKind::NLP | ModelKind::MINLP => true,
        _ => false,
    };
    nonlinear && current < 2
}

/// The classes that need `NonConvex` raised are exactly those that are not
/// linear: QP, MIQP, NLP and MINLP need it, LP and MILP do not.
pub proof fn lemma_nonconvex_classes(kind: ModelKind)
    ensures
        nonlinear_kind(kind) <==> !linear_kind(kind),
        kind is QP ==> nonlinear_kind(kind),
        kind is MIQP ==> nonlinear_kind(kind),
        kind is NLP ==> nonlinear_kind(kind),
        kind is MINLP ==> nonlinear_kind(kind),
        kind is LP ==> !nonlinear_kind(kind),
        kind is MILP ==> !nonlinear_kind(kind),
{
}

/// The status codes Gurobi reports after an optimization, one for each of
/// its documented values.
#[derive(Copy, Clone, Debug, PartialEq, Eq, Structural)]
pub enum GurobiStatus {
    Loaded,
    Optimal,
    Infeasible,
    InfOrUnbd,
    Unbounded,
    CutOff,
    IterationLimit,
    NodeLimit,
    TimeLimit,
    SolutionLimit,
    Interrupted,
    Numeric,
    SubOptimal,
    InProgress,
    UserObjLimit,
}

/// How `Debug` renders a Gurobi status code: the variant's name.
pub open spec fn gurobi_status_name(s: GurobiStatus) -> Seq<char> {
    match s {
        GurobiStatus::Loaded => "Loaded"@,
        GurobiStatus::Optimal => "Optimal"@,
        GurobiStatus::Infeasible => "Infeasible"@,
        GurobiStatus::InfOrUnbd => "InfOrUnbd"@,
        GurobiStatus::Unbounded => "Unbounded"@,
        GurobiStatus::CutOff => "CutOff"@,
        GurobiStatus::IterationLimit => "IterationLimit"@,
        GurobiStatus::NodeLimit => "NodeLimit"@,
        GurobiStatus::TimeLimit => "TimeLimit"@,
        GurobiStatus::SolutionLimit => "SolutionLimit"@,
        GurobiStatus::Interrupted => "Interrupted"@,
        GurobiStatus::Numeric => "Numeric"@,
        GurobiStatus::SubOptimal => "SubOptimal"@,
        GurobiStatus::InProgress => "InProgress"@,
        GurobiStatus::UserObjLimit => "UserObjLimit"@,
    }
}

/// `r` is the status that Gurobi's code `s` maps to: each code with a
/// counterpart maps to it, and the others become `Other("Status: <code>")`.
pub open spec fn status_from_gurobi_is(s: GurobiStatus, r: SolverStatus) -> bool {
    match s {
        GurobiStatus::Optimal => r is Optimal,
        GurobiStatus::Infeasible => r is Infeasible,
        GurobiStatus::Unbounded | GurobiStatus::InfOrUnbd => r is Unbounded,
        GurobiStatus::Numeric => r is NumericError,
        GurobiStatus::TimeLimit | GurobiStatus::IterationLimit | GurobiStatus::NodeLimit => r is TimeLimit,
        GurobiStatus::SubOptimal => r is Feasible,
        GurobiStatus::Loaded => r is NotSolved,
        _ => r matches SolverStatus::Other(t) && t@ == "Status: "@ + gurobi_status_name(s),
    }
}

/// Maps a Gurobi status code to the solver-independent status.
pub fn status_from_gurobi(s: GurobiStatus) -> (r: SolverStatus)
    ensures
        status_from_gurobi_is(s, r),
{
    match s {
        GurobiStatus::Optimal => SolverStatus::Optimal,
        GurobiStatus::Infeasible => SolverStatus::Infeasible,
        GurobiStatus::Unbounded | GurobiStatus::InfOrUnbd => SolverStatus::Unbounded,
        GurobiStatus::Numeric => SolverStatus::NumericError,
        GurobiStatus::TimeLimit | GurobiStatus::IterationLimit | GurobiStatus::NodeLimit =>
            SolverStatus::TimeLimit,
        GurobiStatus::SubOptimal => SolverStatus::Feasible,
        GurobiStatus::Loaded => SolverStatus::NotSolved,
        _ => {
            let mut t = String::from_str("Status: ");
            let name = match s {
                GurobiStatus::CutOff => "CutOff",
                GurobiStatus::SolutionLimit => "SolutionLimit",
                GurobiStatus::Interrupted => "Interrupted",
                GurobiStatus::InProgress => "InProgress",
                _ => "UserObjLimit",
            };
            t.append(name);
            SolverStatus::Other(t)
        },
    }
}

/// A Gurobi status maps to a status that carries a solution exactly when it
/// is `Optimal` or `SubOptimal`; every other code (infeasible, unbounded, a
/// limit, a numerical error, ...) maps to a status without one.
pub proof fn lemma_gurobi_solution_statuses(s: GurobiStatus, r: SolverStatus)
    requires
        status_from_gurobi_is(s, r),
    ensures
        r.spec_has_solution() <==> (s is Optimal || s is SubOptimal),
{
}

/// Which parts of a solution to read back from a backend after a solve.
#[derive(Copy, Clone, Debug, PartialEq, Eq, Structural)]
pub struct SolutionParts {
    /// Read the primal values.
    pub primal: bool,
    /// Read the reduced costs and the duals.
    pub duals: bool,
}

/// Decides what to read back: nothing when the backend holds no solution
/// (`sol_count <= 0`) and the status does not carry one; otherwise the
/// primal values, and for an LP also the reduced costs and the duals, which
/// other model classes either do not have or report as zeros.
pub fn solution_parts(status: &SolverStatus, kind: ModelKind, sol_count: i32) -> (p: SolutionParts)
    ensures
        p.primal == (sol_count > 0 || status.spec_has_solution()),
        p.duals == (p.primal && kind is LP),
        p.primal <==> (sol_count > 0 || status is Optimal || status is Feasible),
{
    if sol_count <= 0 && !status.has_solution() {
        return SolutionParts { primal: false, duals: false };
    }
    let lp = match kind {
        ModelKind::LP => true,
        _ => false,
    };
    SolutionParts { primal: true, duals: lp }
}

/// Variable `i` holds `values[i]`.
pub open spec fn values_by_var(values: Seq<Number>) -> Map<VarId, Seq<char>> {
    Map::new(|v: VarId| (v.0 as int) < values.len(), |v: VarId| values[v.0 as int].text@)
}

/// Constraint `i` holds `pis[i]` where that is present.
pub open spec fn duals_by_constraint(pis: Seq<Option<Number>>) -> Map<ConstraintId, Seq<char>> {
    Map::new(
        |c: ConstraintId| (c.0 as int) < pis.len() && pis[c.0 as int] is Some,
        |c: ConstraintId| pis[c.0 as int].unwrap().text@,
    )
}

/// One entry per variable: the variables of a list of values are exactly
/// `VarId(0)` up to `VarId(values.len() - 1)`, and `VarId(i)` holds
/// `values[i]`, a zero value included.
pub proof fn lemma_one_value_per_variable(values: Seq<Number>)
    requires
        values.len() <= u32::MAX + 1,
    ensures
        forall|v: VarId| #[trigger] values_by_var(values).contains_key(v) <==> (v.0 as int) < values.len(),
        forall|i: int|
            0 <= i < values.len() ==> values_by_var(values).contains_key(VarId(i as u32))
                && values_by_var(values)[VarId(i as u32)] == (#[trigger] values[i]).text@,
{
    assert forall|i: int| 0 <= i < values.len() implies values_by_var(values).contains_key(
        VarId(i as u32),
    ) && values_by_var(values)[VarId(i as u32)] == (#[trigger] values[i]).text@ by {
        assert(VarId(i as u32).0 as int == i);
    }
}

/// One entry per constraint that has a dual: `ConstraintId(i)` holds
/// `pis[i]` exactly when that is present.
pub proof fn lemma_one_dual_per_constraint(pis: Seq<Option<Number>>)
    requires
        forall|i: int| u32::MAX < i < pis.len() ==> (#[trigger] pis[i]) is None,
    ensures
        forall|c: ConstraintId| #[trigger] duals_by_constraint(pis).contains_key(c) <==> ((c.0 as int)
            < pis.len() && pis[c.0 as int] is Some),
        forall|i: int|
            0 <= i < pis.len() && (#[trigger] pis[i]) is Some ==> duals_by_constraint(
                pis,
            ).contains_key(ConstraintId(i as u32)) && duals_by_constraint(pis)[ConstraintId(
                i as u32,
            )] == pis[i].unwrap().text@,
{
    assert forall|i: int| 0 <= i < pis.len() && (#[trigger] pis[i]) is Some implies duals_by_constraint(
        pis,
    ).contains_key(ConstraintId(i as u32)) && duals_by_constraint(pis)[ConstraintId(i as u32)]
        == pis[i].unwrap().text@ by {
        assert(ConstraintId(i as u32).0 as int == i);
    }
}

/// The values read for every variable, in variable order, keyed by
/// `VarId(i)`.
pub fn var_map(values: &Vec<Number>) -> (m: VarValues)
    requires
        values@.len() <= u32::MAX + 1,
    ensures
        var_values(m) == values_by_var(values@),
        forall|v: VarId| #[trigger] var_values(m).contains_key(v) <==> (v.0 as int) < values@.len(),
        forall|i: int|
            0 <= i < values@.len() ==> var_values(m).contains_key(VarId(i as u32)) && var_values(
                m,
            )[VarId(i as u32)] == (#[trigger] values@[i]).text@,
{
    let mut m = var_values_new();
    let n = values.len();
    let mut i: usize = 0;
    while i < n
        invariant
            n == values@.len(),
            n <= u32::MAX + 1,
            0 <= i <= n,
            var_values(m) == Map::new(
                |v: VarId| (v.0 as int) < i,
                |v: VarId| values@[v.0 as int].text@,
            ),
        decreases n - i,
    {
        var_values_insert(&mut m, VarId(i as u32), values[i].copy());
        i = i + 1;
        assert(var_values(m) =~= Map::new(
            |v: VarId| (v.0 as int) < i,
            |v: VarId| values@[v.0 as int].text@,
        ));
    }
    assert(var_values(m) =~= values_by_var(values@));
    proof {
        lemma_one_value_per_variable(values@);
    }
    m
}

/// The duals read for the constraints that have one, keyed by
/// `ConstraintId(i)`.
pub fn dual_map(pis: &Vec<Option<Number>>) -> (m: ConstraintValues)
    requires
        forall|i: int| u32::MAX < i < pis@.len() ==> (#[trigger] pis@[i]) is None,
    ensures
        constraint_values(m) == duals_by_constraint(pis@),
        forall|c: ConstraintId| #[trigger] constraint_values(m).contains_key(c) <==> ((c.0 as int)
            < pis@.len() && pis@[c.0 as int] is Some),
        forall|i: int|
            0 <= i < pis@.len() && (#[trigger] pis@[i]) is Some ==> constraint_values(m).contains_key(
                ConstraintId(i as u32),
            ) && constraint_values(m)[ConstraintId(i as u32)] == pis@[i].unwrap().text@,
{
    let mut m = constraint_values_new();
    let n = pis.len();
    let mut i: usize = 0;
    while i < n
        invariant
            n == pis@.len(),
            forall|j: int| u32::MAX < j < pis@.len() ==> (#[trigger] pis@[j]) is None,
            0 <= i <= n,
            constraint_values(m) == Map::new(
                |c: ConstraintId| (c.0 as int) < i && pis@[c.0 as int] is Some,
                |c: ConstraintId| pis@[c.0 as int].unwrap().text@,
            ),
        decreases n - i,
    {
        match &pis[i] {
            Some(pi) => {
                assert(i <= u32::MAX);
                constraint_values_insert(&mut m, ConstraintId(i as u32), pi.copy());
            },
            None => {},
        }
        i = i + 1;
        assert(constraint_values(m) =~= Map::new(
            |c: ConstraintId| (c.0 as int) < i && pis@[c.0 as int] is Some,
            |c: ConstraintId| pis@[c.0 as int].unwrap().text@,
        ));
    }
    assert(constraint_values(m) =~= duals_by_constraint(pis@));
    proof {
        lemma_one_dual_per_constraint(pis@);
    }
    m
}

/// The values a map of variable values holds for a list that may be missing.
pub open spec fn values_or_none(values: Option<Vec<Number>>) -> Map<VarId, Seq<char>> {
    match values {
        Some(v) => values_by_var(v@),
        None => no_var_values(),
    }
}

/// Builds the primal values, reduced costs and duals of a solve from what the
/// backend reported: the primal and reduced-cost lists (`None` when the
/// backend refused them) and each constraint's dual (`None` for a constraint
/// without one). What is kept follows [`solution_parts`]: nothing without a
/// solution, and no reduced costs or duals but for an LP.
pub fn collect_solution(
    status: &SolverStatus,
    kind: ModelKind,
    sol_count: i32,
    primal: Option<Vec<Number>>,
    reduced: Option<Vec<Number>>,
    duals: Vec<Option<Number>>,
) -> (r: (VarValues, VarValues, ConstraintValues))
    requires
        primal matches Some(v) ==> v@.len() <= u32::MAX + 1,
        reduced matches Some(v) ==> v@.len() <= u32::MAX + 1,
        forall|i: int| u32::MAX < i < duals@.len() ==> (#[trigger] duals@[i]) is None,
    ensures
        ({
            let keep_primal = sol_count > 0 || status.spec_has_solution();
            let keep_duals = keep_primal && kind is LP;
            &&& var_values(r.0) == (if keep_primal {
                values_or_none(primal)
            } else {
                no_var_values()
            })
            &&& var_values(r.1) == (if keep_duals {
                values_or_none(reduced)
            } else {
                no_var_values()
            })
            &&& constraint_values(r.2) == (if keep_duals {
                duals_by_constraint(duals@)
            } else {
                no_constraint_values()
            })
            &&& keep_primal && primal is Some ==> forall|i: int|
                0 <= i < primal.unwrap()@.len() ==> var_values(r.0).contains_key(VarId(i as u32))
                    && var_values(r.0)[VarId(i as u32)] == (#[trigger] primal.unwrap()@[i]).text@
            &&& keep_primal && primal is Some ==> forall|x: VarId| #[trigger] var_values(
                r.0,
            ).contains_key(x) ==> (x.0 as int) < primal.unwrap()@.len()
            &&& keep_duals && reduced is Some ==> forall|i: int|
                0 <= i < reduced.unwrap()@.len() ==> var_values(r.1).contains_key(VarId(i as u32))
                    && var_values(r.1)[VarId(i as u32)] == (#[trigger] reduced.unwrap()@[i]).text@
            &&& keep_duals && reduced is Some ==> forall|x: VarId| #[trigger] var_values(
                r.1,
            ).contains_key(x) ==> (x.0 as int) < reduced.unwrap()@.len()
        }),
{
    let parts = solution_parts(status, kind, sol_count);
    if !parts.primal {
        return (var_values_new(), var_values_new(), constraint_values_new());
    }
    let p = match &primal {
        Some(v) => var_map(v),
        None => var_values_new(),
    };
    if !parts.duals {
        return (p, var_values_new(), constraint_values_new());
    }
    let rc = match &reduced {
        Some(v) => var_map(v),
        None => var_values_new(),
    };
    let d = dual_map(&duals);
    (p, rc, d)
}

} // verus!
