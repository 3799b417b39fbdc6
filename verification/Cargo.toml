[package]
name = "uplink"
version = "0.1.0"
edition = "2021"
publish = false

[dependencies]
chrono = "0.4"
once_cell = "1"
notify-rust = "4"
uuid = { version = "1", features = ["v4"] }
tokio = { version = "1", features = ["sync"] }
derive_more = "0.99"
log = "0.4"
