[package]
name = "cachypac"
version = "0.1.0"
edition = "2021"
publish = false

[dependencies]
reqwest = { version = "*", default-features = false, features = ["json"] }
tokio = { version = "*", features = ["rt", "rt-multi-thread", "macros", "time"] }
serde = { version = "*", features = ["derive"] }
serde_json = "*"
toml = "*"
