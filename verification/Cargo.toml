[package]
name = "klamer_dev"
version = "0.1.0"
edition = "2021"
publish = false

[dependencies]
sha2 = "*"
base64 = "*"
http = "*"
axum = "*"
axum-extra = "*"
axum-server = "*"
tokio = { version = "*", features = ["full"] }
rustls-acme = { version = "*", features = ["axum"] }
aws-config = "*"
aws-sdk-s3 = "*"
async-trait = "*"
futures = "*"
clap = { version = "*", features = ["derive"] }
tower-http = { version = "*", features = ["trace"] }
tracing = "*"
tracing-subscriber = "*"
log = "*"
lazy_static = "*"
