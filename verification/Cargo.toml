[package]
name = "katana_bench"
version = "0.1.0"
edition = "2021"
publish = false

[dependencies]
anyhow = "1"
cainome = "=0.5.1"
clap = { version = "4", features = ["derive"] }
futures = "0.3"
serde = { version = "1", features = ["derive"] }
serde_json = "1"
starknet = "=0.13.0"
starknet-types-core = "=0.1.7"
tokio = { version = "1", features = ["rt-multi-thread", "macros"] }
tracing = "0.1"
tracing-subscriber = "0.3"
url = { version = "2", features = ["serde"] }
