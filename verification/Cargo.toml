[package]
name = "cc_bar"
version = "0.1.0"
edition = "2021"
publish = false

[dependencies]
serde = { version = "1", features = ["derive"] }
serde_json = "1"
dirs = "*"
inotify = "*"
tokio = { version = "1", features = ["time", "fs"] }
futures-util = "*"
libc = "*"
