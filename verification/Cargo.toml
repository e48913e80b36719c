[package]
name = "tracker_core"
version = "0.1.0"
edition = "2021"
publish = false

[dependencies]
rand = "=0.8.8"
tokio = { version = "=1.54.1", default-features = false, features = ["sync", "rt"] }
bittorrent-primitives = "=0.1.0"
log = "=0.4.34"
