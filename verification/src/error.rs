use vstd::prelude::*;

verus! {

/// The error taxonomy of the minimizer core.
///
/// A verifier that merely reports "does not reproduce" is not an error; it is
/// an input to the bisection controller. The variants here are failures that
/// end the current pass (or the whole run).
#[derive(Debug)]
pub enum MinimizeError {
    /// A file could not be persisted through the build environment.
    Io { path: String },
    /// Source text could not be parsed into a syntax tree.
    Parse { path: String },
    /// A syntax tree could not be printed back to text: the environment's
    /// formatter refused it, or the printed text did not parse.
    Format { path: String },
    /// The build tool itself failed to run.
    Verifier,
    /// The untouched project does not reproduce the issue, so there is
    /// nothing to reduce.
    DoesNotReproduce,
    /// A pass broke the controller discipline (for example, it reported no
    /// change after accepting candidate sites).
    InvariantViolation,
    /// The external cancellation flag was observed at a round boundary.
    Cancelled,
}

impl MinimizeError {
    /// A short human-readable description of the error kind.
    pub fn describe(&self) -> String {
        match self {
            MinimizeError::Io { .. } => String::from_str("failed to persist a source file"),
            MinimizeError::Parse { .. } => String::from_str("failed to parse a source file"),
            MinimizeError::Format { .. } => String::from_str("failed to print a source tree"),
            MinimizeError::Verifier => String::from_str("the build tool failed to run"),
            MinimizeError::DoesNotReproduce => {
                String::from_str("the initial build must reproduce the issue")
            },
            MinimizeError::InvariantViolation => {
                String::from_str("a pass broke the controller discipline")
            },
            MinimizeError::Cancelled => String::from_str("cancelled"),
        }
    }
}

} // verus!
