[package]
name = "wsio"
version = "0.1.0"
edition = "2021"
publish = false

[dependencies]
roaring = "*"
serde = "*"
serde_json = "*"
ciborium = "*"
rmp-serde = "*"
postcard = { version = "*", features = ["alloc"] }
bincode = { version = "*", features = ["serde"] }
anyhow = "*"
arc-swap = "*"
parking_lot = "*"
futures-util = "*"
http = "*"
url = "*"
tokio = { version = "*", features = ["rt-multi-thread", "net", "sync", "time", "macros"] }
tokio-tungstenite = "*"
tokio-util = "*"
