[package]
name = "game_net"
version = "0.1.0"
edition = "2021"
publish = false

[dependencies]
async-std = "1"
bincode = "1"
byteorder = "1"
bytes = "1"
colored = "2"
flatbuffers = "*"
futures = "0.3"
internet-checksum = "*"
num-derive = "*"
num-traits = "0.2"
rand = "*"
serde = { version = "1", features = ["derive"] }
tokio = { version = "1", features = ["full"] }
tokio-util = { version = "*", features = ["codec"] }
