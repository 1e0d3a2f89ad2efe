[package]
name = "banks"
version = "0.1.0"
edition = "2021"
publish = false

[dependencies]
serde_json = "1"
serde = { version = "1", features = ["derive"] }
reqwest = { version = "0.12", default-features = false, features = ["json", "stream", "rustls-tls"] }
tokio = { version = "1", features = ["macros", "rt-multi-thread", "time", "io-std"] }
futures-core = "0.3"
futures-util = "0.3"
eventsource-stream = "0.2"
bytes = "1"
async-stream = "0.3"
async-trait = "0.1"
clap = { version = "4", features = ["derive"] }
dotenvy = "0.15"
anyhow = "1"
thiserror = "2"
tracing-subscriber = { version = "0.3", features = ["env-filter"] }
