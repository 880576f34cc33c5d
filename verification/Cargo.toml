[package]
name = "syncplay"
version = "0.1.0"
edition = "2021"
publish = false

[dependencies]
bincode = "1.3"
block2 = "0.6"
clap = { version = "4", features = ["derive"] }
cpal = "0.16"
crossbeam-channel = "0.5"
mdns-sd = "0.13"
objc2 = "0.6"
objc2-core-audio = "0.3"
objc2-core-audio-types = "0.3"
objc2-core-foundation = "0.3"
objc2-foundation = "0.3"
parking_lot = "0.12"
screencapturekit = "1"
thiserror = "2"
tracing = "0.1"
tracing-subscriber = { version = "0.3", features = ["env-filter"] }
