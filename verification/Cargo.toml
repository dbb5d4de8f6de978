[package]
name = "audio_stream"
version = "0.1.0"
edition = "2021"
publish = false

[dependencies]
clap = { version = "=4.6.7", features = ["derive"] }
cpal = "=0.15.3"
eyre = "=0.6.14"
moka = { version = "=0.12.16", features = ["future"] }
regex = "=1.13.1"
ringbuf = "=0.4.8"
serde = { version = "=1.0.229", features = ["derive"] }
serde_json = "=1.0.154"
tokio = { version = "=1.54.1", features = ["full"] }
tracing = "=0.1.44"
tracing-subscriber = { version = "=0.3.23", features = ["env-filter"] }
