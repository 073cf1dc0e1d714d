[package]
name = "alien_archive"
version = "0.1.0"
edition = "2021"
publish = false

[dependencies]
anyhow = "1"
ron = "*"
serde = { version = "1", features = ["derive"] }
