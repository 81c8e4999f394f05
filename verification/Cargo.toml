[package]
name = "rarity"
version = "0.1.0"
edition = "2021"
publish = false

[dependencies]
crossbeam-channel = "*"
humansize = "*"
memory-stats = "*"
num_cpus = "*"
parking_lot = "*"
rusqlite = { version = "*", features = ["bundled"] }
zstd = "*"
