[package]
name = "webcodex"
version = "0.1.0"
edition = "2021"
publish = false

[dependencies]
chrono = "0.4"
futures-util = "0.3"
libc = "0.2"
reqwest = { version = "0.12", default-features = false, features = ["blocking", "json"] }
serde = { version = "1", features = ["derive"] }
serde_json = "1"
sha2 = "0.10"
tempfile = "3"
tokio = { version = "1", features = ["rt-multi-thread", "macros", "sync", "time"] }
toml = "0.8"
tracing = "0.1"
tungstenite = "0.26"
url = "2"
uuid = "1"
