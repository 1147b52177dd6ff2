[package]
name = "mocktail"
version = "0.1.0"
edition = "2021"
publish = false

[dependencies]
bytes = "1"
futures = "0.3"
http = "1"
http-body = "1"
http-body-util = "0.1"
hyper = { version = "1", features = ["http1", "http2", "server"] }
hyper-util = { version = "0.1", features = ["http1", "http2", "server", "server-auto", "server-graceful", "tokio"] }
prost = { version = "0.13", default-features = false, features = ["std"] }
rand = "0.9"
serde = "1"
serde_json = "1"
thiserror = "2"
tokio = { version = "1", features = ["macros", "net", "rt-multi-thread", "sync", "time"] }
tokio-stream = "0.1"
tracing = "0.1"
url = "2"
uuid = { version = "1", features = ["v7"] }
