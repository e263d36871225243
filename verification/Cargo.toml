[package]
name = "kunobi_reload"
version = "0.1.0"
edition = "2021"
publish = false

[dependencies]
notify = "8"
thiserror = "2"
tokio = { version = "1", features = ["macros", "rt", "sync", "time"] }
tracing = "0.1"
