[package]
name = "cyberpunk"
version = "0.1.0"
edition = "2021"
publish = false

[dependencies]
argon2 = "0.5"
bytes = "1"
chrono = "0.4"
gethostname = "*"
hex = "0.4"
infer = "*"
num_cpus = "1"
rand = "0.8"
sha1 = "0.10"
url = "2"
urlencoding = "2"
axum = "0.7"
color-eyre = "0.6"
config = "0.14"
dotenvy = "0.15"
redis = { version = "0.27", features = ["tokio-comp"] }
reqwest = { version = "0.12", default-features = false, features = ["rustls-tls"] }
secrecy = "0.10"
serde = { version = "1", features = ["derive"] }
serde-aux = "4"
serde_json = "1"
tempfile = "3"
thiserror = "1"
tokio = { version = "1", features = ["full"] }
tower-http = { version = "0.5", features = ["trace"] }
tracing = "0.1"
