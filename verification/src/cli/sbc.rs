//! `sbc`: the controller program, its radar of kernels and their discovery.
use vstd::prelude::*;
use crate::keyed::KeyedVec;
use crate::paths::{file_stem_of, std_file_stem};

verus! {

/// Options of `sbc start`.
#[derive(Debug)]
pub struct CliSubCommandConfig {
    /// The controller configuration file.
    pub config: String,
    /// Leave out the web root of the configuration (for front-end development).
    pub no_web_root: bool,
    /// Run against the Kubernetes cluster the controller is in.
    pub k8s: bool,
}

/// The subcommands of `sbc`.
#[derive(Debug)]
pub enum CliSubCommand {
    Start(CliSubCommandConfig),
}

/// The arguments of `sbc`.
#[derive(Debug)]
pub struct CliArgs {
    pub command: CliSubCommand,
}

/// Whether the controller was asked to run in Kubernetes mode.
pub fn is_in_k8s(args: &CliArgs) -> (b: bool)
    ensures
        b == match args.command {
            CliSubCommand::Start(cmd) => cmd.k8s,
        },
{
    match &args.command {
        CliSubCommand::Start(cmd) => cmd.k8s,
    }
}

/// A kernel instance found by the radar: its socket path, or its HTTP address.
#[derive(Debug)]
pub enum SbkInstance {
    Uds(String),
    Http(String),
}

/// Why discovering kernels failed.
#[derive(Debug)]
pub enum SbkDiscoveryError {
    IoError(String),
    SocketNotFound(String),
    SocketWithoutFileStem(String),
}

/// Settings of the radar.
#[derive(Debug)]
pub struct RadarConfig {
    pub event_channel_capacity: usize,
}

/// Watches for kernels.
#[derive(Debug)]
pub struct Radar {
    pub config: RadarConfig,
}

/// A connection to a kernel instance.
#[derive(Debug)]
pub struct SbkConnection {
    pub instance: SbkInstance,
}

/// Kernels found and kernels lost since the last update, by name.
#[derive(Debug)]
pub struct SbkListUpdate {
    pub discovered: KeyedVec<String, SbkInstance>,
    pub lost: KeyedVec<String, ()>,
}

/// Records a socket found while scanning a socket directory: the kernel is named after the
/// socket file's stem. A path without a stem is refused.
pub fn record_socket(instances: &mut KeyedVec<String, SbkInstance>, path: String) -> (r: Result<(), SbkDiscoveryError>)
    ensures
        r is Ok <==> std_file_stem(path@) is Some,
        r is Ok ==> final(instances).map() == old(instances).map().insert(std_file_stem(path@)->0, SbkInstance::Uds(path)),
        r is Err ==> r == Err::<(), SbkDiscoveryError>(SbkDiscoveryError::SocketWithoutFileStem(path))
            && final(instances).map() == old(instances).map(),
{
    match file_stem_of(path.as_str()) {
        Some(stem) => {
            instances.insert(stem, SbkInstance::Uds(path));
            Ok(())
        },
        None => Err(SbkDiscoveryError::SocketWithoutFileStem(path)),
    }
}

} // verus!
