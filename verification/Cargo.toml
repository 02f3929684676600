[package]
name = "event_wait"
version = "0.1.0"
edition = "2021"
publish = false

[dependencies]
chrono = "*"

[dev-dependencies]
crossbeam = "*"
rand = "*"
