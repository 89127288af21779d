[package]
name = "sand_ui"
version = "0.1.0"
edition = "2021"
publish = false

[dependencies]
trie-rs = "*"
serde = { version = "1", features = ["derive"] }
thiserror = "*"
tracing = "*"
