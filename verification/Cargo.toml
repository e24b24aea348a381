[package]
name = "fsfill"
version = "0.1.0"
edition = "2021"
publish = false

[dependencies]
anyhow = "1"
clap = { version = "3", features = ["derive"] }
crc = "1"
rand = "0.8"
rand_chacha = "0.3"
rand_hc = "0.3"
serde = { version = "1", features = ["derive"] }
serde_json = "1"
