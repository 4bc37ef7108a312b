[package]
name = "region_capture"
version = "0.1.0"
edition = "2021"
publish = false

[dependencies]
anyhow = "=1.0.104"
crossbeam = { version = "=0.8.5", default-features = false, features = ["std", "crossbeam-channel"] }
image = "=0.24.9"
screenshots = "=0.8.10"
