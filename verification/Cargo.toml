[package]
name = "task"
version = "0.1.0"
edition = "2021"
publish = false

[dependencies]
rusqlite = { version = "=0.40.2", features = ["bundled", "fallible_uint"] }
prettytable-rs = "=0.10.0"
dirs = "=7.0.0"
