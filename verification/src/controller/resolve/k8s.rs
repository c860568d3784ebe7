//! Service configuration from Kubernetes Gateway API resources.
use vstd::prelude::*;

pub mod service_config;

verus! {

/// The settings of the Kubernetes resolver (it has none of its own).
#[derive(Debug)]
pub struct K8sResolveConfig {}

/// The resolver that builds the service configuration from the cluster's gateways.
#[derive(Debug)]
pub struct K8sServiceConfigResolver;

} // verus!
