[package]
name = "yt-transcript-rs"
version = "0.1.0"
edition = "2021"
publish = false

[dependencies]
serde_json = "1"
regex = "1"
roxmltree = "*"
html-escape = "*"
serde = { version = "1", features = ["derive"] }
thiserror = "*"
anyhow = "1"
reqwest = { version = "*", default-features = false, features = ["cookies"] }
