[package]
name = "ratgames"
version = "0.1.0"
edition = "2021"
publish = false

[dependencies]
font8x8 = { version = "0.3", default-features = false, features = ["std"] }
serde = { version = "1", features = ["derive"] }
serde_json = "1"
toml = "*"
thiserror = "*"
anyhow = "1"
fontdue = "*"
fontdb = "*"
