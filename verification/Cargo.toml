[package]
name = "lyrics_export"
version = "0.1.0"
edition = "2021"
publish = false

[dependencies]
anyhow = "1"
lofty = "*"
serde = { version = "1", features = ["derive"] }
thiserror = "*"
