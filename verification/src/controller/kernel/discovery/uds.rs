//! Kernels on this machine reached through unix sockets.
pub use crate::controller::config::KernelDiscoveryUdsConfig;
