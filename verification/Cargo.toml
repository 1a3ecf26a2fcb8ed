[package]
name = "skid_steer"
version = "0.1.0"
edition = "2021"
publish = false

[dependencies]
async-channel = "2"
foldhash = "*"
tokio = { version = "1", features = ["sync"] }

[dev-dependencies]
pollster = "*"
