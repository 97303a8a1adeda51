[package]
name = "forge_watch"
version = "0.1.0"
edition = "2021"
publish = false

[dependencies]
asupersync = "0.2.6"
async-trait = "0.1"
httparse = "1"
libc = "0.2"
serde = { version = "1", features = ["derive"] }
serde_json = "1"
tokio = { version = "1", features = ["rt", "sync", "time"] }
