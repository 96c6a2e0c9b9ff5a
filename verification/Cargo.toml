[package]
name = "rust_bbs"
version = "0.1.0"
edition = "2021"
publish = false

[dependencies]
anyhow = "*"
argon2 = "*"
clap = { version = "*", features = ["derive", "env"] }
rand = "*"
ratatui = "*"
rpassword = "*"
rusqlite = { version = "*", features = ["bundled"] }
russh = { version = "*", default-features = false, features = ["ring", "rsa", "flate2"] }
tokio = { version = "*", features = ["full"] }
unicode-width = "*"
