//! Verified core of the DataFed repository server: wire formats, message
//! envelopes, path sanitisation, configuration handling and the decisions a
//! request worker takes.

pub mod wire;
pub mod text;
pub mod proto;
pub mod message;
pub mod path_utils;
pub mod version;
pub mod config;
pub mod metrics;
pub mod worker;
pub mod communicator;
pub mod error_handling;
pub mod benchmark;
pub mod log_context;
