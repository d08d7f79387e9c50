[package]
name = "sonda_core"
version = "0.1.0"
edition = "2021"
publish = false

[dependencies]
rust_decimal = "1"
serde = { version = "1", features = ["derive"] }
serde_json = "1"
thiserror = "1"
tempfile = "3"
calamine = "*"
clap = { version = "4", features = ["derive"] }
