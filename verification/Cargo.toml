[package]
name = "casper_core"
version = "0.1.0"
edition = "2021"
publish = false

[dependencies]
blake2-rfc = "0.2.18"
num-rational = "0.4"
num-traits = "0.2"
serde = { version = "1", features = ["derive"] }
bincode = "1.3"
thiserror = "1"

[dev-dependencies]
rand = "0.8"
