[package]
name = "zerostack"
version = "0.1.0"
edition = "2021"
publish = false

[dependencies]
base64 = "=0.22.1"
imagesize = { version = "=0.15.0", default-features = false, features = ["gif", "jpeg", "png", "webp"] }
rig = { version = "0.40", default-features = false }
serde = { version = "1", features = ["derive"] }
serde_json = "=1.0.154"
tokio = { version = "=1.54.1", features = ["fs", "macros", "rt", "sync", "time"] }
