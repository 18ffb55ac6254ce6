[package]
name = "geth_indexer"
version = "0.1.0"
edition = "2021"
publish = false

[dependencies]
alloy = { version = "=0.3.6", default-features = false, features = ["std", "rpc-types", "serde", "sol-types"] }
chrono = { version = "=0.4.45", default-features = false, features = ["std"] }
diesel = { version = "=2.2.12", default-features = false, features = ["postgres_backend", "32-column-tables"] }
diesel-async = { version = "=0.5.2", features = ["postgres", "deadpool", "async-connection-wrapper"] }
futures = "=0.3.34"
redis = { version = "=0.27.6", default-features = false }
serde = { version = "=1.0.229", features = ["derive"] }
serde_json = "=1.0.154"
thiserror = "=1.0.69"
tokio = { version = "=1.54.1", features = ["rt-multi-thread", "macros", "sync", "time", "signal"] }
tracing = "=0.1.44"
url = "=2.5.2"
warp = { version = "=0.3.7", default-features = false }
