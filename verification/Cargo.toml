[package]
name = "pulsync"
version = "0.1.0"
edition = "2021"
publish = false

[dependencies]
chrono = "0.4"
thiserror = "2"
tokio = { version = "1", features = ["rt-multi-thread", "time"] }
serde = { version = "1", features = ["derive"] }
