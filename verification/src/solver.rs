use vstd::prelude::*;
use vstd::string::*;

verus! {

/// The class of a model, from its variables' domains and its expressions.
#[derive(Copy, Clone, Debug, PartialEq, Eq, Structural)]
pub enum ModelKind {
    LP,
    MILP,
    QP,
    MIQP,
    NLP,
    MINLP,
}

/// How a solve ended.
#[derive(Clone, Debug, PartialEq)]
pub enum SolverStatus {
    NotSolved,
    Optimal,
    Feasible,
    Infeasible,
    Unbounded,
    TimeLimit,
    NumericError,
    Other(String),
}

impl SolverStatus {
    pub open spec fn spec_has_solution(&self) -> bool {
        self is Optimal || self is Feasible
    }

    /// Whether the status carries a solution (optimal or feasible).
    pub fn has_solution(&self) -> (b: bool)
        ensures
            b == self.spec_has_solution(),
            b <==> (self is Optimal || self is Feasible),
    {
        match self {
            SolverStatus::Optimal | SolverStatus::Feasible => true,
            _ => false,
        }
    }
}

/// Only an optimal or a feasible solve carries a solution: a solve that was
/// not run, or that ended infeasible, unbounded, at a limit, in a numerical
/// error or in any other way, carries none.
pub proof fn lemma_solution_only_when_optimal_or_feasible(s: SolverStatus)
    ensures
        s is Optimal ==> s.spec_has_solution(),
        s is Feasible ==> s.spec_has_solution(),
        s is NotSolved ==> !s.spec_has_solution(),
        s is Infeasible ==> !s.spec_has_solution(),
        s is Unbounded ==> !s.spec_has_solution(),
        s is TimeLimit ==> !s.spec_has_solution(),
        s is NumericError ==> !s.spec_has_solution(),
        s is Other ==> !s.spec_has_solution(),
{
}

/// What every backend tells of itself.
pub trait Solver {
    /// The backend's name.
    fn name(&self) -> &str;

    /// Whether the backend accepts models of class `kind`.
    fn supports(&self, kind: ModelKind) -> bool;
}

/// The classes that the linear backends accept: LP and MILP.
pub open spec fn linear_kind(kind: ModelKind) -> bool {
    kind is LP || kind is MILP
}

/// GAMS solver backend.
///
/// Writes the model to a `.gms` file, invokes the GAMS executable, and reads
/// back the solution.
#[derive(Debug, Clone)]
pub struct Gams {
    /// Optional override for the GAMS executable path. When `None`, `"gams"` is
    /// looked up from the system `PATH`.
    pub exec_path: Option<String>,
}

impl Default for Gams {
    fn default() -> (g: Gams)
        ensures
            g.exec_path is None,
    {
        Gams { exec_path: None }
    }
}

impl Gams {
    /// Create a backend that uses `gams` from `PATH`.
    pub fn new() -> (g: Gams)
        ensures
            g.exec_path is None,
    {
        Gams::default()
    }

    /// Create a backend pointing at an explicit GAMS executable path.
    pub fn with_exec(path: &str) -> (g: Gams)
        ensures
            g.exec_path matches Some(p) && p@ == path@,
    {
        Gams { exec_path: Some(String::from_str(path)) }
    }
}

impl Solver for Gams {
    fn name(&self) -> (s: &str)
        ensures
            s@ == "gams"@,
    {
        "gams"
    }

    fn supports(&self, kind: ModelKind) -> (b: bool)
        ensures
            b == linear_kind(kind),
    {
        match kind {
            ModelKind::LP | ModelKind::MILP => true,
            _ => false,
        }
    }
}

/// Gurobi solver backend.
#[derive(Debug, Default, Clone, Copy)]
pub struct Gurobi;

impl Solver for Gurobi {
    fn name(&self) -> (s: &str)
        ensures
            s@ == "gurobi"@,
    {
        "gurobi"
    }

    fn supports(&self, kind: ModelKind) -> (b: bool)
        ensures
            b == linear_kind(kind),
    {
        match kind {
            ModelKind::LP | ModelKind::MILP => true,
            _ => false,
        }
    }
}

} // verus!
