[package]
name = "apphatch"
version = "0.1.0"
edition = "2021"
publish = false

[dependencies]
ini = "1"
uuid = { version = "1", features = ["v4"] }
clap = { version = "4", features = ["derive"] }
