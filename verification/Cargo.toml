[package]
name = "ipc_source"
version = "0.1.0"
edition = "2021"
publish = false

[dependencies]
anyhow = "=1.0.104"
async-trait = "=0.1.92"
rand = "*"
rtc = "=0.20.5"
rtc-rtp = "=0.20.5"
tokio = { version = "=1.54.1", features = ["full"] }
tracing = "=0.1.44"
