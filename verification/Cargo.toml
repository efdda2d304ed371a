[package]
name = "arcadedb_protocol"
version = "0.1.0"
edition = "2021"
publish = false

[dependencies]
chrono = "=0.4.45"
http = "=1.5.0"
proc-macro2 = "=1.0.107"
prost-types = "=0.14.4"
quote = "=1.0.47"
rayon = "=1.12.0"
rust_decimal = "=1.43.0"
serde = { version = "=1.0.229", features = ["derive"] }
serde_json = "=1.0.154"
syn = { version = "=2.0.119", features = ["full", "extra-traits"] }
thiserror = "=2.0.21"
tokio = { version = "=1.54.1", features = ["rt", "sync", "time"] }
tokio-stream = "=0.1.19"
tonic = { version = "=0.14.9", features = ["tls-ring"] }
tracing = "=0.1.44"
