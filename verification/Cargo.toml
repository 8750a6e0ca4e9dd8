[package]
name = "tab_decrypt"
version = "0.1.0"
edition = "2021"
publish = false

[dependencies]
anyhow = "1"
env_logger = "0.11"
hex = "0.4"
log = "0.4"
openssl = "0.10"
rand = "0.8"
reqwest = { version = "0.12", features = ["json"] }
serde = { version = "1", features = ["derive"] }
serde_json = "1"
tinytemplate = "1"
tokio = { version = "1", features = ["fs", "macros", "rt", "time"] }
toml = "0.8"
