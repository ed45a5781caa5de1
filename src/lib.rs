//! Decoding of captured link-layer frames into TCP/IPv4 address-and-port
//! records, with optional filtering on ports.
pub mod filter;
pub mod laws;
pub mod pipeline;
pub mod record;
pub mod wire;
