[package]
name = "power_sequencer"
version = "0.1.0"
edition = "2021"
publish = false

[dependencies]
anyhow = "1"
gpiod = "*"
tokio = { version = "1", features = ["fs", "time"] }
tracing = "0.1"
