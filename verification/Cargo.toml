[package]
name = "dcr"
version = "0.1.0"
edition = "2021"
publish = false

[dependencies]
sha2 = "0.10"
serde = { version = "1", features = ["derive"] }
serde_json = "1"
toml = "*"
toml_edit = "*"
glob = "0.3"
fatfs = "*"
self-replace = "*"
reqwest = { version = "*", default-features = false, features = ["blocking", "json", "rustls-tls"] }
