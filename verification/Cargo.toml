[package]
name = "auth_orchestrator"
version = "0.1.0"
edition = "2021"
publish = false

[dependencies]
postgres = "*"
reqwest = { version = "*", default-features = false, features = ["blocking", "json"] }
serde = { version = "*", features = ["derive"] }
serde_json = "*"
toml = "*"
ws = "*"
