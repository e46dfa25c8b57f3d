[package]
name = "corex"
version = "0.1.0"
edition = "2021"
publish = false

[dependencies]
axum = "=0.8.9"
tokio = { version = "=1.53.2", features = ["rt", "net", "io-util", "time"] }

[dev-dependencies]
tower = { version = "*", features = ["util"] }
