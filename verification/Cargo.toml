[package]
name = "tetra_bluestation"
version = "0.1.0"
edition = "2021"
publish = false

[dependencies]
clap = { version = "*", features = ["derive"] }
serde = { version = "*", features = ["derive"] }
serde_json = "*"
toml = "*"
tracing = "*"
tracing-subscriber = { version = "*", features = ["env-filter"] }
crossbeam-channel = "*"
soapysdr = "*"
