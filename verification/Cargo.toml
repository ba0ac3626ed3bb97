[package]
name = "obiwan"
version = "0.1.0"
edition = "2021"
publish = false

[dependencies]
axum = "*"
handlebars = "*"
serde = { version = "*", features = ["derive"] }
serde_derive = "*"
tokio = { version = "*", features = ["full"] }
tokio-util = { version = "*", features = ["io"] }
