[package]
name = "devtools_relay"
version = "0.1.0"
edition = "2021"
publish = false

[dependencies]
flate2 = "*"
uuid = { version = "*", features = ["v4"] }
serde = { version = "*", features = ["derive"] }
serde_json = "*"
axum = { version = "*", features = ["ws"] }
tokio = { version = "*", features = ["full"] }
futures-util = "*"
clap = { version = "*", features = ["derive"] }
thiserror = "*"
