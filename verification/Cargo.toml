[package]
name = "fileops"
version = "0.1.0"
edition = "2021"
publish = false

[dependencies]
futures = "0.3"
serde = { version = "1", features = ["derive"] }
tokio = { version = "1", features = ["fs", "macros", "rt", "sync", "time"] }
toml = "0.7"

[dev-dependencies]
libc = "0.2"
