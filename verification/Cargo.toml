[package]
name = "character2d"
version = "0.1.0"
edition = "2021"
publish = false

[dependencies]
anyhow = "=1.0.104"
bevy = { version = "=0.6.1", default-features = false, features = ["render"] }
proc-macro2 = "=1.0.107"
quote = "=1.0.47"
serde = { version = "=1.0.229", features = ["derive"] }
serde_yaml = "=0.8.26"
syn = { version = "=1.0.109", features = ["full"] }
thiserror = "=1.0.69"
tokio-macros = "1"
