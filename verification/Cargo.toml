[package]
name = "webview_ext"
version = "0.1.0"
edition = "2021"
publish = false

[dependencies]
regex = "1"
url = { version = "2", features = ["serde"] }
time = { version = "0.3", features = ["parsing", "serde"] }
serde = { version = "1", features = ["derive"] }
futures = "0.3"
tokio = { version = "1", features = ["sync"] }
async-stream = "0.3"
icrate = "0.0.2"
