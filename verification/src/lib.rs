//! Building blocks of a chained proxy: addresses and flows, packet framing,
//! relays, route selection, and the bookkeeping around sessions.

pub mod addr;
pub mod client;
pub mod conn;
pub mod conn_handler;
pub mod connect;
pub mod crypto;
pub mod io;
pub mod key_map;
pub mod metrics;
pub mod proxy_table;
pub mod random;
pub mod relay;
pub mod route;
pub mod route_header;
pub mod sampling;
pub mod serve_loop;
pub mod session;
pub mod text;
pub mod time;
pub mod ttl_cell;
