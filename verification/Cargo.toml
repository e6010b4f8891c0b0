[package]
name = "kodik"
version = "0.1.0"
edition = "2021"
publish = false

[dependencies]
base64 = "=0.22.1"
lazy-regex = "=3.6.2"
log = "=0.4.35"
reqwest = { version = "=0.12.28", default-features = false, features = ["json", "cookies", "rustls-tls"] }
serde = { version = "=1.0.229", features = ["derive"] }
serde-saphyr = "=2.0.0"
thiserror = "=2.0.21"
tokio = { version = "=1.54.1", features = ["time"] }
ua_generator = { version = "=0.5.88", default-features = false }
url = "=2.5.8"
