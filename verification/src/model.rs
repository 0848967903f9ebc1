use vstd::prelude::*;

use smol_str::SmolStr;

use crate::ids::{ExprId, ParamId};
use crate::number::Number;

verus! {

/// The domain of a variable, which determines the type of values it can take.
///
/// Real: any real number.
/// Integer: any integer.
/// Binary: 0 or 1.
/// SemiContinuous: either 0 or any value >= threshold.
/// SemiInteger: either 0 or any integer >= threshold.
#[derive(Clone, Debug, PartialEq)]
pub enum Domain {
    Real,
    Integer,
    Binary,
    SemiContinuous { threshold: Number },
    SemiInteger { threshold: Number },
}

impl Domain {
    pub open spec fn spec_is_integer(&self) -> bool {
        self is Integer || self is Binary || self is SemiInteger
    }

    /// Whether this domain is integer-valued (Integer, Binary, SemiInteger).
    pub fn is_integer(&self) -> (b: bool)
        ensures
            b == self.spec_is_integer(),
    {
        match self {
            Domain::Integer | Domain::Binary | Domain::SemiInteger { .. } => true,
            _ => false,
        }
    }
}

impl Default for Domain {
    fn default() -> (d: Domain)
        ensures
            d is Real,
    {
        Domain::Real
    }
}

/// Whether the model minimizes or maximizes its objective.
#[derive(Copy, Clone, Debug, PartialEq, Eq, Structural)]
pub enum ObjectiveSense {
    Minimize,
    Maximize,
}

/// The model's objective: an expression to optimize and the direction.
#[derive(Clone, Debug)]
pub struct Objective {
    /// Root node of the objective expression in the model's expression arena.
    pub expr: ExprId,
    pub sense: ObjectiveSense,
}

/// The relation of a constraint's left side to its right side.
#[derive(Copy, Clone, Debug, PartialEq, Eq, Structural)]
pub enum Sense {
    Le,
    Ge,
    Eq,
}

#[verifier::external_type_specification]
#[verifier::external_body]
pub struct ExSmolStr(SmolStr);

/// `SmolStr`'s `clone`; nothing is stated of the copy, which the proofs never
/// read.
pub assume_specification[ <SmolStr as Clone>::clone ](s: &SmolStr) -> SmolStr;

/// Parameter metadata. Parameters are scalars referenced symbolically in
/// expressions and re-bound between solves.
///
/// For now, scalar parameters only.
#[derive(Clone, Debug)]
pub struct Parameter {
    pub id: ParamId,
    pub name: SmolStr,
    pub value: Number,
}

} // verus!
