//! Errors of the connection to one kernel.
use vstd::prelude::*;

verus! {

/// Why a call to a kernel failed; the text is the message of the underlying error.
#[derive(Debug)]
pub enum KernelGrpcConnectionError {
    GrpcConnectError(String),
    GrpcRequestError(String),
    UpdateConfigError(String),
    StateParseError(String),
    /// The kernel is not tracked, or tracked without a live connection.
    KernelNotConnected,
}

/// How to reach a kernel over TCP: its socket address, and the largest frame accepted.
#[derive(Debug)]
pub struct TcpTransposeConfig {
    pub addr: String,
    pub max_frame_size: u32,
}

impl Default for TcpTransposeConfig {
    /// The local kernel at `[::1]:8056`, frames of up to 4 MiB.
    fn default() -> (c: Self)
        ensures
            c.addr@ == "[::1]:8056"@,
            c.max_frame_size == 4194304,
    {
        let max_frame_size: u32 = 1u32 << 22u32;
        assert(1u32 << 22u32 == 4194304u32) by (bit_vector);
        TcpTransposeConfig { addr: crate::text::owned("[::1]:8056"), max_frame_size }
    }
}

/// How to reach a kernel over a unix socket: its path, and the largest frame accepted.
#[derive(Debug)]
pub struct UdsTransposeConfig {
    pub path: String,
    pub max_frame_size: u32,
}

impl UdsTransposeConfig {
    /// The kernel at socket `path`, frames of up to 4 MiB.
    pub fn at_path(path: String) -> (c: Self)
        ensures
            c.path == path,
            c.max_frame_size == 4194304,
    {
        let max_frame_size: u32 = 1u32 << 22u32;
        assert(1u32 << 22u32 == 4194304u32) by (bit_vector);
        UdsTransposeConfig { path, max_frame_size }
    }
}

/// What a kernel's reply to a configuration update means: success, the kernel's error, or
/// a request error when the reply carries no result.
pub fn update_config_outcome(reply: Option<Result<(), String>>) -> (r: Result<(), KernelGrpcConnectionError>)
    ensures
        match reply {
            Some(Ok(())) => r is Ok,
            Some(Err(e)) => r == Err::<(), KernelGrpcConnectionError>(KernelGrpcConnectionError::UpdateConfigError(e)),
            None => r matches Err(KernelGrpcConnectionError::GrpcRequestError(m))
                && m@ == "Kernel returned empty result on config update"@,
        },
{
    match reply {
        Some(Ok(())) => Ok(()),
        Some(Err(e)) => Err(KernelGrpcConnectionError::UpdateConfigError(e)),
        None => Err(KernelGrpcConnectionError::GrpcRequestError(crate::text::owned("Kernel returned empty result on config update"))),
    }
}

} // verus!
