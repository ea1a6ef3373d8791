[package]
name = "chak"
version = "0.1.0"
edition = "2021"
publish = false

[dependencies]
sha2 = "0.10"
indexmap = { version = "2", features = ["serde"] }
serde = { version = "1", features = ["derive"] }
toml = "0.8"
clap = { version = "4", features = ["derive"] }
colored = "2"
dirs = "5"
ignore = "0.4"
once_cell = "1"
