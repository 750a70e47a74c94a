[package]
name = "serde_spline"
version = "0.1.0"
edition = "2021"
publish = false

[dependencies]
clap = { version = "=4.6.7", features = ["derive"] }
color-print = "=0.3.7"
jwalk = "=0.8.1"
serde = { version = "=1.0.229", features = ["derive"] }
sonic-rs = "=0.5.10"
