[package]
name = "modrinth"
version = "0.1.0"
edition = "2021"
publish = false

[dependencies]
anyhow = "=1.0.104"
chrono = { version = "=0.4.45", features = ["serde"] }
clap = { version = "=4.6.7", features = ["derive", "env"] }
hex = "=0.4.3"
reqwest = { version = "=0.13.5", default-features = false, features = ["json"] }
serde = { version = "=1.0.229", features = ["derive"] }
sha2 = "=0.11.0"
tokio = { version = "=1.53.2", features = ["fs", "io-util", "macros", "rt-multi-thread"] }
tokio-stream = "=0.1.19"
tokio-util = { version = "=0.7.19", features = ["io"] }
toml = "=1.1.7"
tracing = "=0.1.44"
tracing-subscriber = { version = "=0.3.23", features = ["env-filter"] }
