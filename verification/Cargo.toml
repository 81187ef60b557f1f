[package]
name = "tile_sync"
version = "0.1.0"
edition = "2021"
publish = false

[dependencies]
base64 = "=0.13.1"
flume = "=0.11.1"
rand = "=0.8.8"
chrono = "=0.4.45"
webrtc = "=0.21.0"
tokio = { version = "1", features = ["rt-multi-thread", "sync", "time", "macros"] }
bytes = "1"
arboard = "*"
async-trait = "0.1"
