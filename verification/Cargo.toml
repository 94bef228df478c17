[package]
name = "staff"
version = "0.1.0"
edition = "2021"
publish = false

[dependencies]
serde = { version = "=1.0.229", features = ["derive"] }
lambda_http = "=1.3.1"
mysql = { version = "=28.0.3", default-features = false, features = ["minimal-rust", "derive", "buffer-pool"] }
tokio = { version = "=1.53.2", features = ["macros", "rt"] }
tracing = "=0.1.44"
tracing-subscriber = "=0.3.23"
handlebars = "=6.4.4"
