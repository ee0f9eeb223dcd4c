[package]
name = "haul-core"
version = "0.1.0"
edition = "2021"
publish = false

[dependencies]
anyhow = "1"
bs58 = "0.5"
chacha20poly1305 = "0.10"
clap = { version = "4", features = ["derive"] }
directories = "5"
futures-util = "0.3"
indicatif = "0.17"
postcard = { version = "1", features = ["alloc"] }
rand = "0.8"
serde = { version = "1", features = ["derive"] }
serde_json = "1"
tokio = { version = "1", features = ["full"] }
tracing = "0.1"
tracing-subscriber = { version = "0.3", features = ["env-filter"] }
