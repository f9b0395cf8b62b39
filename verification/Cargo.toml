[package]
name = "deepseek_harness_runtime"
version = "0.1.0"
edition = "2021"
publish = false

[dependencies]
anyhow = "1"
flate2 = "1"
notify = "*"
reqwest = { version = "0.12", default-features = false, features = ["blocking", "json", "rustls-tls"] }
serde = { version = "1", features = ["derive"] }
serde_json = "1"
sys-locale = "0.3"
tao = "*"
tar = "0.4"
toml = "*"
wry = "*"
zip = { version = "2", default-features = false, features = ["deflate"] }
