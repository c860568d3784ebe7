//! The controller: kernels it manages, the configuration it rolls out and the
//! resources it turns into service configuration.
pub mod config;
pub mod dir;
pub mod interface;
pub mod kernel;
pub mod link_resolver;
pub mod resource;
pub mod resolve;
pub mod run;
