[package]
name = "freenet_core"
version = "0.1.0"
edition = "2021"
publish = false

[dependencies]
aes-gcm = "0.10"
anyhow = "1"
bincode = "1"
either = "1"
freenet-stdlib = { version = "0.1", default-features = false, features = ["testing"] }
futures = "0.3"
parking_lot = "0.12"
rand = { version = "0.8", features = ["small_rng"] }
serde = { version = "1", features = ["derive"] }
tokio = { version = "1", features = ["macros", "rt", "rt-multi-thread", "sync", "time"] }
tracing = "0.1"

[dev-dependencies]
arbitrary = "1"
