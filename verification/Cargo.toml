[package]
name = "lhe"
version = "0.1.0"
edition = "2021"
publish = false

[dependencies]
algebra = "*"
bfv = "*"
chacha20poly1305 = "*"
hex = "0.4"
serde = { version = "1", features = ["derive"] }
serde_json = "1"
