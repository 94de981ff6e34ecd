[package]
name = "borrowviz"
version = "0.1.0"
edition = "2021"
publish = false

[dependencies]
anyhow = "*"
cargo_metadata = "*"
serde = { version = "*", features = ["derive"] }
serde_json = "*"
