[package]
name = "promptforge-cli"
version = "0.1.0"
edition = "2021"
publish = false

[dependencies]
anyhow = "1"
async-trait = "0.1"
clap = { version = "4", features = ["derive"] }
fastrand = "2"
tokio = { version = "1", features = ["fs", "io-std", "io-util", "macros", "rt", "signal"] }
