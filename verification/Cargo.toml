[package]
name = "rebalancer"
version = "0.1.0"
edition = "2021"
publish = false

[dependencies]
csv = "*"
apca = "*"
futures = "*"
log = "*"
reqwest = { version = "*", features = ["multipart"] }
tokio = { version = "*", features = ["rt-multi-thread", "macros"] }
dotenv = "*"
flexi_logger = "*"
