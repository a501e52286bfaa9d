[package]
name = "figura"
version = "0.1.0"
edition = "2021"
publish = false

[dependencies]
strip-ansi-escapes = "*"
unicode-width = "*"
serde = { version = "1", features = ["derive"] }
serde_json = "1"
chrono = "0.4"
dirs = "*"
git2 = { version = "*", default-features = false }
rayon = "1"
users = "*"
thiserror = "*"
