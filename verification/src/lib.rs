//! Algebraic modelling core: expressions, variables' data, options, and the
//! fixed-format MPS writer.

pub mod error;
pub mod expr;
pub mod gurobi;
pub mod ids;
pub mod indexed;
pub mod linear;
pub mod model;
pub mod mps;
pub mod number;
pub mod options;
pub mod result;
pub mod set;
pub mod solver;
