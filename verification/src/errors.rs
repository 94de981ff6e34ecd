use vstd::prelude::*;

use crate::role::Role;

verus! {

/// Everything that can go wrong while extracting events from a diagnostic.
/// Every failure is fatal: the run aborts on the first occurrence.
#[derive(Debug)]
pub enum ExtractError {
    /// An error-level diagnostic carries a code with no registered rule.
    UnknownDiagnosticCode(String),
    /// A rule's required labeled span is absent from the diagnostic.
    MissingLabeledSpan(String),
    /// The snippet is not a binding of a single simple name.
    UnsupportedBindingPattern,
    /// The highlighted snippet is not a reference-taking expression.
    NotAReference,
    /// The referenced expression is not a bare identifier path.
    NotASimplePath,
    /// The same identifier was assigned two different roles in one run.
    ConflictingRole(String, Role, Role),
}

} // verus!
