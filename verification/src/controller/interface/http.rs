//! The HTTP interface and the values its endpoints exchange.
use vstd::prelude::*;
use crate::text::owned;

verus! {

/// Where the HTTP interface listens: a socket address such as `0.0.0.0:8056`.
#[derive(Debug)]
pub struct HttpInterfaceConfig {
    pub bind: String,
}

impl HttpInterfaceConfig {
    /// A copy.
    pub fn duplicate(&self) -> (c: Self)
        ensures
            c == *self,
    {
        HttpInterfaceConfig { bind: self.bind.clone() }
    }
}

impl Default for HttpInterfaceConfig {
    /// Listening on all interfaces, port 8056.
    fn default() -> (c: Self)
        ensures
            c.bind@ == "0.0.0.0:8056"@,
    {
        HttpInterfaceConfig { bind: owned("0.0.0.0:8056") }
    }
}

/// Whether the controller runs in a cluster, and its namespace there.
#[derive(Debug)]
pub struct K8sEnvResponse {
    pub in_cluster: bool,
    pub current_namespace: Option<String>,
}

impl K8sEnvResponse {
    /// The environment of a controller whose namespace is `current_namespace` (none outside
    /// a cluster).
    pub fn from_namespace(current_namespace: Option<String>) -> (r: Self)
        ensures
            r.in_cluster == current_namespace is Some,
            r.current_namespace == current_namespace,
    {
        K8sEnvResponse { in_cluster: current_namespace.is_some(), current_namespace }
    }
}

/// The namespaces of the cluster.
#[derive(Debug)]
pub struct K8sNamespacesResponse {
    pub namespaces: Vec<String>,
}

impl K8sNamespacesResponse {
    /// The namespaces named by `names`, each once, in order.
    pub fn from_names(names: Vec<String>) -> (r: Self)
        ensures
            crate::order::strictly_sorted(crate::text::texts(r.namespaces@)),
            forall|t: Seq<char>| crate::text::texts(r.namespaces@).contains(t) <==> crate::text::texts(names@).contains(t),
    {
        K8sNamespacesResponse { namespaces: crate::order::sorted_unique_texts(names) }
    }
}

/// How long a list of namespaces is reused: 30 seconds.
pub open spec fn namespace_cache_ttl_ms() -> u64 {
    30000
}

/// Whether a list of namespaces fetched `elapsed_ms` milliseconds ago is still used.
pub fn namespace_cache_fresh(elapsed_ms: u64) -> (b: bool)
    ensures
        b == (elapsed_ms <= namespace_cache_ttl_ms()),
{
    elapsed_ms <= 30000
}

/// A link to resolve.
#[derive(Debug)]
pub struct ResolveObjectQuery {
    pub link: crate::controller::link_resolver::Link,
}

/// The link a value was saved to.
#[derive(Debug)]
pub struct SaveToLinkResponse {
    pub link: String,
}

/// `true` or `false`, as written in a query.
#[derive(Debug, Clone, Copy, PartialEq, Eq, Structural)]
pub enum BooleanLit {
    True,
    False,
}

impl From<BooleanLit> for bool {
    /// The truth value written.
    fn from(value: BooleanLit) -> (b: bool) {
        match value {
            BooleanLit::True => true,
            BooleanLit::False => false,
        }
    }
}

impl vstd::std_specs::convert::FromSpecImpl<BooleanLit> for bool {
    open spec fn obeys_from_spec() -> bool {
        true
    }

    open spec fn from_spec(value: BooleanLit) -> bool {
        value == BooleanLit::True
    }
}

/// Which stored objects to delete: those named by descriptor, or all revisions of an id.
#[derive(Debug)]
pub enum BatchDeleteStorageObjectRequest {
    ByDescriptors { descriptors: Vec<crate::controller::link_resolver::StorageObjectDescriptor> },
    ById { id: String },
}

} // verus!
