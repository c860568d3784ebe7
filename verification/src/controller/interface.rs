//! The interfaces through which the controller is reached.
use vstd::prelude::*;

pub mod file_browser;
pub mod http;

verus! {

/// Which interfaces to start.
#[derive(Debug)]
pub struct InterfaceConfig {
    pub http: Option<http::HttpInterfaceConfig>,
}

/// The interfaces running, with `H` the handle of a running HTTP interface.
#[derive(Debug)]
pub struct InterfaceManager<H> {
    pub http_interface: Option<H>,
}

impl<H> InterfaceManager<H> {
    /// No interface running.
    pub fn new() -> (m: Self)
        ensures
            m.http_interface is None,
    {
        InterfaceManager { http_interface: None }
    }

    /// The HTTP interface to start: the configured one, when none is running yet.
    pub fn http_to_start(&self, config: &InterfaceConfig) -> (r: Option<http::HttpInterfaceConfig>)
        ensures
            r is Some <==> config.http is Some && self.http_interface is None,
            r is Some ==> r->0 == config.http->0,
    {
        match &config.http {
            Some(h) => if self.http_interface.is_none() {
                Some(h.duplicate())
            } else {
                None
            },
            None => None,
        }
    }
}

} // verus!
