[package]
name = "keygen"
version = "0.1.0"
edition = "2021"
publish = false

[dependencies]
aes-gcm = "0.10"
sha2 = "0.10"
regex = "1"
chrono = "0.4"
hex = "0.4"
rand = "0.9"
rand_core = "0.9"
anyhow = "1"
clap = { version = "4", features = ["derive"] }
serde = { version = "1", features = ["derive"] }
toml = "0.8"
rusqlite = "0.32"
tempfile = "3"
