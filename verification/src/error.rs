//! Error kinds and action labels.

use vstd::prelude::*;

verus! {

/// The kinds of failure the engine and user-supplied node logic report.
///
/// `NodeError` is an execution failure raised inside a node's execute
/// phase: it is the only kind the retry loop recovers from.  `FlowError`
/// is a wiring or usage mistake (for example an edge to a node that does
/// not exist), always fatal and never retried.  `StoreError` reports a
/// failure while reading or writing the shared store, and `Unknown`
/// covers everything else.
#[derive(Clone, Copy, PartialEq, Eq, Structural, Debug)]
pub enum MinLLMError {
    FlowError,
    NodeError,
    StoreError,
    Unknown,
}

impl MinLLMError {
    /// A short description of the error kind.
    pub fn message(&self) -> (r: String)
        ensures
            r@ == match *self {
                MinLLMError::FlowError => "flow execution error"@,
                MinLLMError::NodeError => "node execution error"@,
                MinLLMError::StoreError => "store access error"@,
                MinLLMError::Unknown => "unknown error"@,
            },
    {
        match self {
            MinLLMError::FlowError => "flow execution error".to_owned(),
            MinLLMError::NodeError => "node execution error".to_owned(),
            MinLLMError::StoreError => "store access error".to_owned(),
            MinLLMError::Unknown => "unknown error".to_owned(),
        }
    }
}

/// The sentinel label that names a node's fallback edge.
pub open spec fn default_label() -> Seq<char> {
    "default"@
}

/// An absent or empty action label means the same as the sentinel
/// `"default"`, so labels are compared after this normalization.
pub open spec fn normalize_label(s: Seq<char>) -> Seq<char> {
    if s.len() == 0 {
        default_label()
    } else {
        s
    }
}

/// The action label a node's post phase returns; a flow uses it only to
/// pick the next edge.
pub struct ActionName(pub String);

impl View for ActionName {
    type V = Seq<char>;

    open spec fn view(&self) -> Seq<char> {
        self.0@
    }
}

impl ActionName {
    /// Wrap a label.
    pub fn new(label: &str) -> (r: ActionName)
        ensures
            r@ == label@,
    {
        ActionName(label.to_owned())
    }

    /// Whether this label selects the default edge (it is empty or is
    /// the sentinel itself).
    pub fn is_default(&self) -> (r: bool)
        ensures
            r == (normalize_label(self@) == default_label()),
    {
        let sentinel: String = "default".to_owned();
        self.0.as_str().is_empty() || self.0 == sentinel
    }
}

impl Clone for ActionName {
    fn clone(&self) -> (r: Self)
        ensures
            r@ == self@,
    {
        ActionName(self.0.clone())
    }
}

impl Default for ActionName {
    /// The default action label is the sentinel `"default"`.
    fn default() -> (r: Self)
        ensures
            r@ == default_label(),
    {
        ActionName("default".to_owned())
    }
}

} // verus!
