//! How the controller runs.
use vstd::prelude::*;

verus! {

/// The mode the controller runs in.
#[derive(Debug, PartialEq, Eq, Clone, Copy, Structural)]
pub enum RunMode {
    /// Under standalone mode, the controller receives requests and takes actions.
    Standalone,
    /// Under Kubernetes mode, the controller watches Kubernetes resources and takes actions.
    K8s,
}

impl RunMode {
    /// Whether this is Kubernetes mode.
    pub fn is_k8s(&self) -> (b: bool)
        ensures
            b == (*self == RunMode::K8s),
    {
        match self {
            RunMode::K8s => true,
            RunMode::Standalone => false,
        }
    }
}

} // verus!
