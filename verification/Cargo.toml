[package]
name = "pi_stellar_nexus"
version = "0.1.0"
edition = "2021"
publish = false

[dependencies]
rust_decimal = "1"
chrono = { version = "0.4", default-features = false, features = ["clock", "std", "serde"] }
serde = { version = "1", features = ["derive"] }
serde_json = "1"
uuid = { version = "1", features = ["v4", "serde"] }
rand = "0.8"
ed25519-dalek = { version = "2", features = ["rand_core"] }
aes-gcm = "0.10"
log = "0.4"
simplelog = "0.12"
env_logger = "0.11"
tokio = { version = "1", features = ["macros", "rt-multi-thread", "time", "sync"] }
reqwest = { version = "0.12", default-features = false, features = ["json", "blocking"] }
actix-web = { version = "4", default-features = false, features = ["macros"] }
