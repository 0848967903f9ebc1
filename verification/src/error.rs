use vstd::prelude::*;

verus! {

#[verifier::external_type_specification]
#[verifier::external_body]
pub struct ExIoError(std::io::Error);

/// Why a model could not be written.
#[derive(Debug)]
pub enum IoError {
    /// The model has no objective.
    NoObjective,
    /// Nonlinear nodes are not representable in this format.
    Nonlinear,
    /// The underlying writer failed.
    Io(std::io::Error),
}

impl IoError {
    /// The message of the error, as its `Display` renders it.
    pub fn message(&self) -> (s: String)
        ensures
            self is NoObjective ==> s@ == "model has no objective"@,
            self is Nonlinear ==> s@ == "nonlinear nodes are not representable in this format"@,
            self is Io ==> s@.len() >= 4 && s@.subrange(0, 4) == "io: "@,
    {
        match self {
            IoError::NoObjective => String::from_str("model has no objective"),
            IoError::Nonlinear => String::from_str("nonlinear nodes are not representable in this format"),
            IoError::Io(e) => {
                let mut s = String::from_str("io: ");
                let t = io_error_to_string(e);
                s.append(t.as_str());
                proof {
                    reveal_strlit("io: ");
                }
                s
            },
        }
    }
}

/// Renders an I/O error with `std::io::Error`'s `Display` (`to_string`).
/// Nothing is promised of the text: for an operating-system error it comes
/// from the system's message table.
#[verifier::external_body]
fn io_error_to_string(e: &std::io::Error) -> String {
    e.to_string()
}

} // verus!
