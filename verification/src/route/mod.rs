//! Routes: chains of proxies, how well they do, and which one to take.

pub mod chain_selection;
pub mod degradation;
pub mod hop_config;
pub mod prober;
pub mod route_selector;
pub mod route_table;
pub mod conn;
pub mod conn_chain;
pub mod rtt_stats;
pub mod weight;
