[package]
name = "done"
version = "0.1.0"
edition = "2021"
publish = false

[dependencies]
chrono = "*"
clap = { version = "*", features = ["derive"] }
sqlite = { version = "*", features = ["bundled"] }
