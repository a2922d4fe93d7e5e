//! Relaying between a downstream and an upstream.

pub mod stream;
pub mod udp;
