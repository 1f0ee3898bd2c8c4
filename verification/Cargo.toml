[package]
name = "gosh_builder"
version = "0.1.0"
edition = "2021"
publish = false

[dependencies]
cyclonedx-bom = "0.4"
zstd = "*"
serde = { version = "1", features = ["derive"] }
serde_json = "1"
serde_yaml = "0.9"
tokio = { version = "1", features = ["full"] }
clap = { version = "4", features = ["derive", "env"] }
anyhow = "1"
tar = "0.4"
dirs = "*"
shellexpand = "3"
