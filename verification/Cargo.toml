[package]
name = "xphttpbridge"
version = "0.1.0"
edition = "2021"
publish = false

[dependencies]
ahash = "0.8"
regex = "1"
rust-ini = "*"
xplm = "*"
serde = { version = "1", features = ["derive"] }
serde_json = "1"
axum = "0.7"
tokio = { version = "1", features = ["rt-multi-thread", "net", "macros"] }
