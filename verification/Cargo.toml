[package]
name = "tonk_core"
version = "0.1.0"
edition = "2021"
publish = false

[dependencies]
uuid = { version = "1", features = ["v4"] }
rand = "0.8"
redis = "*"
bincode = { version = "2", features = ["derive"] }
