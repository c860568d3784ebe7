//! Service configurations kept in files.
use vstd::prelude::*;

verus! {

/// A service configuration: written inline, or in a file.
#[derive(Debug)]
pub enum ServiceConfig {
    Literal(String),
    File(String),
}

} // verus!
