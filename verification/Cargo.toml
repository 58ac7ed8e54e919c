[package]
name = "volte_ims"
version = "0.1.0"
edition = "2021"
publish = false

[dependencies]
ring = "0.17"
serde_json = "1"
serde = { version = "1", features = ["derive"] }
tokio = { version = "1", features = ["net", "time", "sync", "process", "macros", "rt-multi-thread"] }
chrono = "0.4"
socket2 = "0.5"
libc = "0.2"
tracing = "0.1"
