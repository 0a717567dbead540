[package]
name = "saturn"
version = "0.1.0"
edition = "2021"
publish = false

[dependencies]
bincode = { version = "2", features = ["serde"] }
chd = "0.3"
serde = { version = "1", features = ["derive"] }
serde-big-array = "0.5"
