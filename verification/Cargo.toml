[package]
name = "abbs_meta"
version = "0.1.0"
edition = "2021"
publish = false

[dependencies]
anyhow = "1"
git2 = { version = "*", default-features = false }
sea-orm = { version = "*", default-features = false, features = ["macros"] }
serde = { version = "1", features = ["derive"] }
toml = "*"
tracing = { version = "*", features = ["log"] }
