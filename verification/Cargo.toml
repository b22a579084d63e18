[package]
name = "qidi_core"
version = "0.1.0"
edition = "2021"
publish = false

[dependencies]
anyhow = "=1.0.104"
async-trait = "=0.1.92"
chromiumoxide = { version = "=0.9.1", default-features = false }
clap = { version = "=4.6.7", features = ["derive"] }
dirs = "=7.0.0"
dunce = "=1.0.5"
futures = "=0.3.34"
htmd = "=0.5.6"
indexmap = "=2.14.2"
memmap2 = "=0.9.12"
num_cpus = "=1.17.0"
regex = "=1.13.1"
reqwest = { version = "=0.13.5", default-features = false, features = ["query", "rustls"] }
schemars = "=1.2.3"
serde = { version = "=1.0.229", features = ["derive"] }
serde_json = "=1.0.154"
tempfile = "=3.27.0"
tokio = { version = "=1.54.1", features = ["rt", "rt-multi-thread", "macros", "sync", "time"] }
tokio-util = "=0.7.20"
tracing = "=0.1.44"
