[package]
name = "treeboot-core"
version = "0.1.0"
edition = "2021"
publish = false

[dependencies]
dunce = "1"
globset = "0.4"
ignore = "0.4"
serde = { version = "1", features = ["derive"] }
thiserror = "*"
toml = "*"
