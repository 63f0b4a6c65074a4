[package]
name = "rjimp"
version = "0.1.0"
edition = "2021"
publish = false

[dependencies]
png = "*"
jpeg-decoder = "*"
jpeg-encoder = "*"
base64 = "*"
tokio = { version = "1", features = ["fs"] }
