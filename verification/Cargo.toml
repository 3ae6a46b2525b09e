[package]
name = "progresshub"
version = "0.1.0"
edition = "2021"
publish = false

[dependencies]
im = "=15.1.0"
anyhow = "=1.0.104"
serde = { version = "=1.0.229", features = ["derive"] }
serde_json = "=1.0.154"
clap = { version = "=4.6.7", features = ["derive"] }
termcolor = "=1.4.1"
tokio = { version = "=1.54.1", features = ["fs", "rt-multi-thread", "macros", "time", "sync"] }
flume = "=0.11.1"
tracing = "=0.1.44"
tracing-subscriber = { version = "=0.3.23", features = ["env-filter"] }
tracing-appender = "0.2"
reqwest = { version = "0.12", default-features = false, features = ["json", "rustls-tls"] }
