[package]
name = "nipart"
version = "0.1.0"
edition = "2021"
publish = false

[dependencies]
serde = { version = "1", features = ["derive"] }
serde_json = "1"
futures-channel = "0.3"
log = "0.4"
nispor = "1.2"
