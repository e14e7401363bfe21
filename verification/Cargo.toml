[package]
name = "couchcord"
version = "0.1.0"
edition = "2021"
publish = false

[dependencies]
anyhow = "1"
arc-swap = "1"
async-trait = "0.1"
evdev = "0.12"
fontdue = "0.9"
futures-core = "0.3"
futures-util = "0.3"
image = { version = "0.25", default-features = false, features = ["png", "gif", "jpeg", "webp"] }
libc = "0.2"
reqwest = { version = "0.12", default-features = false, features = ["rustls-tls"] }
serde = { version = "1", features = ["derive"] }
serde_json = "1"
tiny-skia = "0.11"
tokio = { version = "1", features = ["rt-multi-thread", "net", "io-util", "sync", "time", "macros"] }
toml = "0.8"
tracing = "0.1"
tracing-subscriber = { version = "0.3", features = ["env-filter"] }
x11rb = "0.13"
