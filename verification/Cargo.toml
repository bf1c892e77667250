[package]
name = "embeddenator_io"
version = "0.1.0"
edition = "2021"
publish = false

[dependencies]
zstd = "0.13"
lz4_flex = "0.11"
serde = { version = "1", features = ["derive"] }
serde_json = "1"
bincode = "1"
tokio = { version = "1", features = ["fs", "io-util"] }
