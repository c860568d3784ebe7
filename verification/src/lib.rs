//! Control plane of a switchboard deployment: kernels, their configuration, and the
//! conversion of Gateway API resources into service configurations.
pub mod cli;
pub mod config_fs;
pub mod controller;
pub mod keyed;
pub mod order;
pub mod paths;
pub mod seqs;
pub mod text;
