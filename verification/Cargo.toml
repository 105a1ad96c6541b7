[package]
name = "redisbrute"
version = "0.1.0"
edition = "2021"
publish = false

[dependencies]
chrono = "*"
clap = { version = "*", features = ["derive"] }
crossbeam-queue = "*"
parking_lot = "*"
