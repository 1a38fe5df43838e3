//! Issues that a dependency-graph analysis of a container can report.
//!
//! The analysis itself operates on declared dependency metadata and is an
//! external collaborator of the container; only the shape of its findings is
//! defined here.

use vstd::prelude::*;

verus! {

/// A misconfiguration found when analysing a container's declared
/// dependencies.
#[derive(Debug)]
pub enum AnalysisError {
    /// There is a cyclic dependency within the container, passing through
    /// the named key.
    Cycle(String),
    /// The first key depends on the second, and the second is not
    /// registered.
    Missing(String, String),
}

impl AnalysisError {
    /// The human-readable description of this finding.
    pub fn message(&self) -> (r: String)
        ensures
            self matches AnalysisError::Cycle(k) ==> r@ == "Cycle detected at node `"@ + k@
                + "`"@,
            self matches AnalysisError::Missing(a, b) ==> r@ == "Node `"@ + a@ + "` depends on `"@
                + b@ + "`, the latter of which is not registered"@,
    {
        match self {
            AnalysisError::Cycle(k) => "Cycle detected at node `".to_owned().concat(
                k.as_str(),
            ).concat("`"),
            AnalysisError::Missing(a, b) => "Node `".to_owned().concat(a.as_str()).concat(
                "` depends on `",
            ).concat(b.as_str()).concat("`, the latter of which is not registered"),
        }
    }
}

} // verus!
