[package]
name = "byetype"
version = "0.1.0"
edition = "2021"
publish = false

[dependencies]
base64 = "0.22"
flacenc = "0.4"
serde = { version = "1", features = ["derive"] }
serde_json = "1"
chrono = { version = "0.4", default-features = false, features = ["clock", "std"] }
tokio = { version = "1", features = ["rt-multi-thread", "macros", "time", "net", "sync"] }
tokio-util = "0.7"
zip = { version = "2", default-features = false, features = ["deflate"] }
reqwest = { version = "0.12", default-features = false, features = ["json", "rustls-tls"] }
axum = "0.7"
symphonia = { version = "0.5", features = ["mp3", "aac", "isomp4"] }
dirs = "5"
open = "5"
arboard = { version = "3", default-features = false }
cpal = "0.15"
