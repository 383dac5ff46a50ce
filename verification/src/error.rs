//! The error value a plugin (or host function) raises across the boundary.
use vstd::prelude::*;

verus! {

/// A structured plugin error: a machine-readable code, a human-readable
/// message and optional details (for example a traceback).
#[derive(Debug, Clone, PartialEq, Eq)]
pub struct PluginError {
    /// Machine-readable error code (e.g. `"NOT_FOUND"`).
    pub code: String,
    /// Human-readable description.
    pub message: String,
    /// Optional free-form details.
    pub details: Option<String>,
}

/// The value of a plugin error: code, message and details as character strings.
pub type PluginErrorView = (Seq<char>, Seq<char>, Option<Seq<char>>);

/// The view of an optional owned string.
pub open spec fn opt_string_view(s: Option<String>) -> Option<Seq<char>> {
    match s {
        Some(x) => Some(x@),
        None => None,
    }
}

impl View for PluginError {
    type V = PluginErrorView;

    open spec fn view(&self) -> PluginErrorView {
        (self.code@, self.message@, opt_string_view(self.details))
    }
}

impl PluginError {
    /// A new error with the given code and message and no details.
    pub fn new(code: &str, message: &str) -> (e: PluginError)
        ensures
            e@ == (code@, message@, None::<Seq<char>>),
    {
        PluginError { code: String::from_str(code), message: String::from_str(message), details: None }
    }

    /// Builds an error from owned parts.
    pub fn from_parts(code: String, message: String, details: Option<String>) -> (e: PluginError)
        ensures
            e@ == (code@, message@, opt_string_view(details)),
    {
        PluginError { code, message, details }
    }
}

} // verus!
