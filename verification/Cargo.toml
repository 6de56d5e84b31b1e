[package]
name = "apraxus-node"
version = "0.1.0"
edition = "2021"
publish = false

[dependencies]
axum = "=0.8.9"
chrono = "=0.4.45"
ed25519-dalek = { version = "=3.0.0", features = ["serde", "rand_core", "digest"] }
getrandom = { version = "=0.4.3", features = ["sys_rng"] }
serde = { version = "=1.0.229", features = ["derive"] }
serde_json = "=1.0.154"
sha2 = "=0.11.1"
tokio = { version = "=1.54.1", features = ["rt-multi-thread", "net", "macros"] }
