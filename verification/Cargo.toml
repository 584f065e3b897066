[package]
name = "jean_core"
version = "0.1.0"
edition = "2021"
publish = false

[dependencies]
rand = "0.8"
base64 = "0.22"
regex = "1"
reqwest = { version = "0.12", default-features = false }
sha2 = "0.10"
minisign-verify = "0.2"
flate2 = "1"
tar = "0.4"
uuid = { version = "1", features = ["v4"] }
serde = { version = "1", features = ["derive"] }
serde_json = "1"
tokio = { version = "1", features = ["sync", "rt-multi-thread", "macros", "signal", "time"] }
tokio-util = "0.7"
dirs = "5"
portable-pty = "0.8"
async-trait = "0.1"
log = "0.4"

[dev-dependencies]
tempfile = "3"
