[package]
name = "cargo_rootfs"
version = "0.1.0"
edition = "2021"
publish = false

[dependencies]
camino = "1"
cargo_metadata = "0.19"
colored = "2"
serde = { version = "1", features = ["derive"] }
serde_json = "1"
