//! Gateways as a resource: the Gateway API objects of a cluster.
use vstd::prelude::*;

pub mod k8s;

verus! {

/// Where gateways come from.
#[derive(Debug)]
pub struct GatewayResourceConfig {
    pub k8s: Option<k8s::K8sGatewayResourceConfig>,
}

} // verus!
