[package]
name = "joblib"
version = "0.1.0"
edition = "2021"
publish = false

[dependencies]
bytes = "1"
tokio = { version = "1", features = ["rt-multi-thread", "macros", "process", "io-util", "sync", "time"] }
uuid = { version = "1", features = ["v4"] }
x509-parser = "0.12"
futures = "0.3"
thiserror = "1"
clap = { version = "3", features = ["derive"] }
tonic = { version = "0.6", features = ["transport", "tls"] }
prost = "0.9"
tokio-stream = "0.1"
tokio-rustls = "0.22"
rustls-pemfile = "0.3"
