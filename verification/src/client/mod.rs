//! The client's end of a proxy chain.

pub mod layers;
pub mod stream;
pub mod udp;
pub mod udp_probe;
