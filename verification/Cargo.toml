[package]
name = "koan"
version = "0.1.0"
edition = "2021"
publish = false

[dependencies]
async-graphql = { version = "7", features = ["dataloader"] }
async-graphql-axum = "7"
async-stream = "0.3"
axum = { version = "0.8", features = ["ws"] }
base64 = "0.22"
crossbeam-channel = "0.5"
crossterm = "*"
form_urlencoded = "1"
image = { version = "0.25", default-features = false, features = ["jpeg", "png"] }
log = "0.4"
lru = "*"
md5 = "*"
nucleo = "0.5"
parking_lot = "0.12"
ratatui = "0.29"
reqwest = { version = "0.12", default-features = false, features = ["stream"] }
rmcp = { version = "*", features = ["server", "transport-io"] }
serde = { version = "1", features = ["derive"] }
serde_json = "1"
subtle = "2"
tokio = { version = "1", features = ["fs", "io-std", "io-util", "macros", "net", "rt-multi-thread", "signal", "sync", "time"] }
tokio-stream = "0.1"
tokio-util = { version = "0.7", features = ["io"] }
tower = { version = "0.5", features = ["limit", "load-shed", "util"] }
tower-http = { version = "0.6", features = ["catch-panic", "cors", "timeout"] }
uuid = { version = "1", features = ["v7"] }
