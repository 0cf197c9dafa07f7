[package]
name = "dpc_lib"
version = "0.1.0"
edition = "2021"
publish = false

[dependencies]
url = "2"
serde = { version = "1", features = ["derive"] }
serde_json = "1"
thiserror = "1"
clap = { version = "4", features = ["derive"] }
tokio = { version = "1", features = ["full"] }
reqwest = { version = "0.12", default-features = false, features = ["json", "rustls-tls"] }
image = { version = "0.25", default-features = false, features = ["png", "jpeg", "webp", "gif"] }
palette = "0.7"
base64 = "0.22"
toml = "0.8"
dirs = "5"
humantime-serde = "1"

[dev-dependencies]
tempfile = "3"
