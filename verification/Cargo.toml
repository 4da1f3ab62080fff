[package]
name = "oxide_core"
version = "0.1.0"
edition = "2021"
publish = false

[dependencies]
bincode = "2"
chrono = "0.4"
libc = "0.2"
memmap2 = "0.9"
notify = "*"
portable-pty = "*"
rusqlite = { version = "*", features = ["bundled"] }
serde = { version = "1", features = ["derive"] }
sled = "0.34"
walkdir = "2"
