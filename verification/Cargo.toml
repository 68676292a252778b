[package]
name = "inf_editor_core"
version = "0.1.0"
edition = "2021"
publish = false

[dependencies]
bincode = { version = "2", features = ["serde"] }
glam = "*"
serde = { version = "1", features = ["derive"] }
toml = "*"
tracing = "*"
uuid = { version = "1", features = ["v4", "serde"] }
