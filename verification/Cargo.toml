[package]
name = "sub_switcher"
version = "0.1.0"
edition = "2021"
publish = false

[dependencies]
serde = { version = "1", features = ["derive"] }
serde_json = "1"
base64 = "0.22"
sha2 = "0.10"
subtle = "2"
chrono = "0.4"
rand = "0.8"
toml = "0.8"
toml_edit = "0.22"
anyhow = "1"
tempfile = "3"
fs2 = "0.4"
libc = "0.2"
tokio = { version = "1", features = ["rt-multi-thread", "sync", "net", "macros", "time"] }
axum = "0.8"
reqwest = { version = "0.12", default-features = false, features = ["json", "stream", "rustls-tls"] }
futures-util = "0.3"
