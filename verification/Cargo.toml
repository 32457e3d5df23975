[package]
name = "cagent_surfaces"
version = "0.1.0"
edition = "2021"
publish = false

[dependencies]
crossterm = "0.29"
ratatui = "0.29"
serde = { version = "1", features = ["derive"] }
serde_json = "1"
simd-json = "*"
tokio = { version = "1", features = ["rt", "sync"] }
unicode-segmentation = "1"
unicode-width = "0.2"
