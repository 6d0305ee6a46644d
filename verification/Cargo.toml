[package]
name = "quic_implementation"
version = "0.1.0"
edition = "2021"
publish = false

[dependencies]
bytes = "=1.12.1"
envy = "=0.4.2"
h3 = "=0.0.8"
h3-quinn = "=0.0.10"
http = "=1.5.0"
quinn = { version = "=0.11.12", default-features = false, features = ["rustls-ring", "runtime-tokio"] }
rustls = { version = "=0.23.45", default-features = false, features = ["ring", "std", "logging", "tls12"] }
rustls-pemfile = "=2.2.0"
serde = { version = "=1.0.229", features = ["derive"] }
tokio = { version = "=1.53.2", features = ["full"] }
tracing = "=0.1.44"
tracing-subscriber = "=0.3.23"
