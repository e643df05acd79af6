[package]
name = "hotel_ink"
version = "0.1.0"
edition = "2021"
publish = false

[dependencies]
chrono = { version = "0.4", default-features = false, features = ["alloc"] }
num-traits = { version = "0.2", default-features = false }
ink = { version = "5", default-features = false, features = ["std"] }
