[package]
name = "tockloader_lib"
version = "0.1.0"
edition = "2021"
publish = false

[dependencies]
anyhow = "*"
clap = { version = "*", features = ["derive"] }
probe-rs = "*"
serde = { version = "*", features = ["derive"] }
tar = "*"
tokio = { version = "*", features = ["full"] }
tokio-serial = "*"
toml = "*"
