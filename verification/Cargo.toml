[package]
name = "pos_engine"
version = "0.1.0"
edition = "2021"
publish = false

[dependencies]
chrono = "=0.4.45"
uuid = { version = "=1.27.0", features = ["v4"] }
rusqlite = { version = "=0.40.2", features = ["bundled"] }
