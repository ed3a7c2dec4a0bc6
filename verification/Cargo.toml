[package]
name = "alligator"
version = "0.1.0"
edition = "2021"
publish = false

[dependencies]
argon2 = "0.5"
base64 = "0.22"
chacha20poly1305 = "0.10"
crossterm = "0.28"
rand = { version = "0.8", features = ["min_const_gen"] }
ratatui = "0.29"
serde = { version = "1", features = ["derive"] }
serde_json = "1"
zeroize = "1"
