[package]
name = "egg_mode_auth"
version = "0.1.0"
edition = "2021"
publish = false

[dependencies]
base64 = "=0.22.1"
chrono = "=0.4.45"
hmac = "=0.12.1"
hyper = { version = "=0.14.32", features = ["client", "http1", "tcp"] }
rand = "0.8"
serde = { version = "=1.0.229", features = ["derive"] }
serde_json = "=1.0.151"
sha1 = "=0.10.7"
thiserror = "=1.0.69"
tokio = { version = "=1.53.2", features = ["rt", "time"] }
