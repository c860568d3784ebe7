//! Settings of the controller's handling of kernels.
use vstd::prelude::*;
use crate::controller::interface::InterfaceConfig;
use crate::controller::resource::ResourceConfig;
use crate::controller::resource::gateway::GatewayResourceConfig;

verus! {

/// How kernels on this machine are found through their unix sockets.
#[derive(Debug)]
pub struct KernelDiscoveryUdsConfig {
    pub dir: String,
    pub scan_interval_secs: u32,
    pub max_frame_size: u32,
}

impl KernelDiscoveryUdsConfig {
    /// The default discovery settings for sockets in `dir`: a scan every 10 seconds, and
    /// frames of up to 4 MiB.
    pub fn in_dir(dir: String) -> (c: Self)
        ensures
            c.dir == dir,
            c.scan_interval_secs == 10,
            c.max_frame_size == 4194304,
    {
        let max_frame_size: u32 = 1u32 << 22u32;
        assert(1u32 << 22u32 == 4194304u32) by (bit_vector);
        KernelDiscoveryUdsConfig { dir, scan_interval_secs: 10, max_frame_size }
    }
}

/// How kernels are discovered.
#[derive(Debug)]
pub struct KernelDiscoveryConfig {
    pub uds: KernelDiscoveryUdsConfig,
}

/// How the controller talks to a kernel it connected to.
#[derive(Debug)]
pub struct KernelConnectConfig {
    pub heartbeat_interval: u32,
    pub channel_buffer_size: u32,
}

impl KernelConnectConfig {
    /// The default connection settings with the given heartbeat interval: a channel buffer of
    /// 32 messages.
    pub fn with_heartbeat_interval(heartbeat_interval: u32) -> (c: Self)
        ensures
            c.heartbeat_interval == heartbeat_interval,
            c.channel_buffer_size == 32,
    {
        KernelConnectConfig { heartbeat_interval, channel_buffer_size: 32 }
    }
}

/// Calls `rand::random` for 32 bytes. Claimed: 32 bytes come back (their values are chance).
#[verifier::external_body]
fn random_key_bytes() -> (k: Vec<u8>)
    ensures
        k@.len() == 32,
{
    rand::random::<[u8; 32]>().to_vec()
}

/// The controller's settings for kernels, and the key they share with it.
#[derive(Debug)]
pub struct KernelConfig {
    pub discovery: KernelDiscoveryConfig,
    pub connect: KernelConnectConfig,
    pub psk: Vec<u8>,
}

impl KernelConfig {
    /// Kernel settings with a fresh random 32-byte key.
    pub fn with_random_key(discovery: KernelDiscoveryConfig, connect: KernelConnectConfig) -> (c: Self)
        ensures
            c.discovery == discovery,
            c.connect == connect,
            c.psk@.len() == 32,
    {
        KernelConfig { discovery, connect, psk: random_key_bytes() }
    }
}

/// The name and description a controller gives of itself.
#[derive(Debug)]
pub struct ControllerInfo {
    pub name: Option<String>,
    pub description: Option<String>,
}

/// The controller's configuration: what it says of itself, how it handles kernels, which
/// interfaces it starts and which resources it draws on.
#[derive(Debug)]
pub struct ControllerConfig {
    pub info: ControllerInfo,
    pub kernel: KernelConfig,
    pub interface: InterfaceConfig,
    pub resource_config: ResourceConfig,
}

impl ControllerConfig {
    /// The configuration with kernel settings `kernel` and everything else left at its
    /// default: no name or description, no interface started, no gateway resource.
    pub fn with_kernel(kernel: KernelConfig) -> (c: Self)
        ensures
            c.info.name is None,
            c.info.description is None,
            c.kernel == kernel,
            c.interface.http is None,
            c.resource_config.gateway.k8s is None,
    {
        ControllerConfig {
            info: ControllerInfo { name: None, description: None },
            kernel,
            interface: InterfaceConfig { http: None },
            resource_config: ResourceConfig { gateway: GatewayResourceConfig { k8s: None } },
        }
    }
}

} // verus!
