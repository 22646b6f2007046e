[package]
name = "on_demand"
version = "0.1.0"
edition = "2021"
publish = false

[dependencies]
futures = { version = "*", features = ["executor"] }
linked-hash-map = "*"
parking_lot = "*"
