[package]
name = "proxy_common"
version = "0.1.0"
edition = "2021"
publish = false

[dependencies]
async-speed-limit = { version = "=0.4.2", default-features = false }
async-trait = "=0.1.92"
metrics = { version = "=0.24.6", default-features = false }
quinn = { version = "=0.11.12", default-features = false, features = ["runtime-tokio"] }
rand = "=0.10.3"
serde = { version = "=1.0.229", features = ["derive"] }
thiserror = "=2.0.21"
tokio = { version = "=1.54.1", default-features = false, features = ["io-util", "macros", "net", "rt", "sync", "time"] }
tokio-util = { version = "=0.7.20", default-features = false }
tracing = { version = "=0.1.44", default-features = false, features = ["std"] }
