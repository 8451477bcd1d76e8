[package]
name = "combat_core"
version = "0.1.0"
edition = "2021"
publish = false

[dependencies]
bitflags = "2"
indexmap = { version = "2", features = ["serde"] }
serde = { version = "1", features = ["derive"] }
smallvec = "1"
thiserror = "2"
toml = "*"
