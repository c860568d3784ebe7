//! TLS certificates: found in files, in Kubernetes secrets, or in the usual system places.
pub mod file;
pub mod k8s;
pub mod unix_local;
