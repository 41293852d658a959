[package]
name = "tracklist"
version = "0.1.0"
edition = "2021"
publish = false

[dependencies]
anyhow = "1"
axum = { version = "0.6", features = ["ws", "macros"] }
clap = { version = "4", features = ["derive"] }
mime_guess = "2"
open = "5"
rust-embed = "8"
serde = { version = "1", features = ["derive"] }
serde_json = "1"
sqlite = "0.30"
tokio = { version = "1", features = ["full"] }
