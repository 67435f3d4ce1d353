[package]
name = "cardano_slurp"
version = "0.1.0"
edition = "2021"
publish = false

[dependencies]
anyhow = "1"
clap = { version = "4", features = ["derive"] }
env_logger = "0.10"
hex = "0.4"
log = "0.4"
pallas = "*"
serde = { version = "1", features = ["derive"] }
serde_json = "1"
tokio = { version = "1", features = ["rt", "rt-multi-thread", "macros", "net", "time", "io-util"] }
tracing = "0.1"
tracing-subscriber = "0.3"

[dev-dependencies]
serde_cbor = "0.11"
