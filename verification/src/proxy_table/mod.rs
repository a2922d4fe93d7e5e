//! Proxies in groups, and tables that tell which group traffic takes.

pub mod proxy_group;
pub mod proxy_server;
pub mod table;
pub mod trace;
