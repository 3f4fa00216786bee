[package]
name = "gdble"
version = "0.1.0"
edition = "2021"
publish = false

[dependencies]
btleplug = "*"
futures = "0.3"
godot = "*"
tokio = { version = "1", features = ["rt-multi-thread", "sync", "time"] }
