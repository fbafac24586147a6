[package]
name = "blockchain"
version = "0.1.0"
edition = "2021"
publish = false

[dependencies]
chrono = "0.4"
hex = "0.4"
p256 = { version = "0.13", features = ["ecdsa"] }
rand = "0.8"
regex = "1"
serde = { version = "1", features = ["derive"] }
sha2 = "0.10"

[dev-dependencies]
serde_json = "1"
