[package]
name = "https_server"
version = "0.1.0"
edition = "2021"
publish = false

[dependencies]
axum = { version = "0.6", features = ["macros"] }
color-eyre = "0.6"
dotenvy = "0.15"
futures = "0.3"
hyper = { version = "0.14", features = ["full"] }
rustls-pemfile = "1"
tls-listener = { version = "0.7", features = ["rustls", "hyper-h1"] }
tokio = { version = "1", features = ["full"] }
tokio-rustls = "0.24"

[dev-dependencies]
rcgen = "0.12"
