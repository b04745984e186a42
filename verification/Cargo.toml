[package]
name = "esp_qq_bot"
version = "0.1.0"
edition = "2021"
publish = false

[dependencies]
broadcaster = "1"
futures = "0.3"
no-std-net = "0.6"
bytes = "1"
log = "0.4"
tracing = "0.1"
anyhow = "1"
