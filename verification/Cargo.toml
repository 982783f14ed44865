[package]
name = "live-server"
version = "0.1.0"
edition = "2021"
publish = false

[dependencies]
axum = { version = "0.7", features = ["ws"] }
clap = { version = "4", features = ["derive"] }
notify = "6"
tokio = { version = "1", features = ["macros", "rt-multi-thread", "net", "sync", "time", "fs"] }
