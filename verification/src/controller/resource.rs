//! Resources the controller draws on: gateways and TLS certificates.
use vstd::prelude::*;

pub mod gateway;
pub mod tls;

verus! {

/// Which resources to draw on.
#[derive(Debug)]
pub struct ResourceConfig {
    pub gateway: gateway::GatewayResourceConfig,
}

} // verus!
