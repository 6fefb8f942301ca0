[package]
name = "hr_scan"
version = "0.1.0"
edition = "2021"
publish = false

[dependencies]
btleplug = "*"
futures = "*"
tokio = { version = "*", features = ["rt"] }
