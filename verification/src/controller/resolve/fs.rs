//! Service configuration read from the file system.
use vstd::prelude::*;

verus! {

/// Where the service configuration file is.
#[derive(Debug)]
pub struct FsResolveConfig {
    pub path: String,
}

/// The resolver that reads the service configuration from a file.
#[derive(Debug)]
pub struct FsServiceConfigResolver;

} // verus!
