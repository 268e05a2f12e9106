[package]
name = "partition_store"
version = "0.1.0"
edition = "2021"
publish = false

[dependencies]
rocksdb = "*"
parity-scale-codec = { version = "3", features = ["derive"] }
libp2p = { version = "*", features = ["kad"] }
color-eyre = "*"
serde = { version = "1", features = ["derive"] }
