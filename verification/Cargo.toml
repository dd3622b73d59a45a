[package]
name = "memori_vault"
version = "0.1.0"
edition = "2021"
publish = false

[dependencies]
pulldown-cmark = { version = "=0.12.2", default-features = false }
quick-xml = "=0.36.2"
flate2 = "=1.1.10"
reqwest = { version = "=0.12.28", default-features = false }
base64 = "=0.22.1"
serde = { version = "=1.0.229", features = ["derive"] }
serde_json = "=1.0.154"
zip = { version = "=2.6.1", default-features = false, features = ["deflate"] }
lopdf = "=0.34.0"
image = { version = "=0.25.10", default-features = false, features = ["png"] }
jsonwebtoken = { version = "=10.4.0", default-features = false, features = ["rust_crypto"] }
uuid = { version = "1", features = ["v4"] }
dirs = "5"
