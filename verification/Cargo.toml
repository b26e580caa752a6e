[package]
name = "kiwi_core"
version = "0.1.0"
edition = "2021"
publish = false

[dependencies]
serde = { version = "1", features = ["derive"] }
serde_json = "1"
toml = "*"
walkdir = "2"
git2 = { version = "*", default-features = false }
reqwest = { version = "*", default-features = false, features = ["blocking", "json"] }
