//! Error codes and the error value of the library.
use vstd::prelude::*;
use vstd::string::StringExecFns;

verus! {

/// Error codes that say what went wrong.
#[derive(Debug, Clone, Copy, PartialEq, Eq, Structural)]
pub enum ErrorType {
    /// An invariant of the engine was broken; should not happen at all.
    Internal,
    /// The graph has no node without incoming edges to start from.
    NoTreeRoot,
    /// A node handle does not name a node of the graph.
    UnknownNode,
    /// A traversal reached the configured maximum number of parser invocations.
    DepthExceeded,
    /// A parser signalled an unrecoverable condition.
    Fatal,
    /// Errors that do not come from the library itself.
    Other,
}

/// The name of an error code.
pub open spec fn code_name(code: ErrorType) -> Seq<char> {
    match code {
        ErrorType::Internal => "Internal"@,
        ErrorType::NoTreeRoot => "NoTreeRoot"@,
        ErrorType::UnknownNode => "UnknownNode"@,
        ErrorType::DepthExceeded => "DepthExceeded"@,
        ErrorType::Fatal => "Fatal"@,
        ErrorType::Other => "Other"@,
    }
}

impl ErrorType {
    /// The name of this error code.
    pub fn name(&self) -> (r: &'static str)
        ensures
            r@ == code_name(*self),
    {
        match self {
            ErrorType::Internal => "Internal",
            ErrorType::NoTreeRoot => "NoTreeRoot",
            ErrorType::UnknownNode => "UnknownNode",
            ErrorType::DepthExceeded => "DepthExceeded",
            ErrorType::Fatal => "Fatal",
            ErrorType::Other => "Other",
        }
    }
}

/// An error of the library: a code and a description for diagnostics.
#[derive(Debug, Clone, PartialEq, Eq)]
pub struct PeelError {
    /// The error variant.
    pub code: ErrorType,
    /// Additional description for the error.
    pub description: String,
}

impl PeelError {
    /// A text of the form `Code: <code>, Description: <description>`.
    pub fn message(&self) -> (r: String)
        ensures
            r@ == "Code: "@ + code_name(self.code) + ", Description: "@ + self.description@,
    {
        let mut s = String::from_str("Code: ");
        s.append(self.code.name());
        s.append(", Description: ");
        s.append(self.description.as_str());
        s
    }
}

/// Builds an error from a code and a description.
pub fn bail(code: ErrorType, description: &str) -> (r: PeelError)
    ensures
        r.code == code,
        r.description@ == description@,
{
    PeelError { code, description: description.to_owned() }
}

} // verus!
