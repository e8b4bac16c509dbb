[package]
name = "capability_host"
version = "0.1.0"
edition = "2021"
publish = false

[dependencies]
sea-query = { version = "=0.32.7", default-features = false, features = ["backend-postgres", "with-chrono"] }
chrono = { version = "=0.4.45", default-features = false, features = ["std"] }
serde_json = "=1.0.154"
base64ct = { version = "=1.8.3", features = ["alloc"] }
dashmap = "=6.2.1"
http = "=1.5.0"
bytes = "=1.12.1"
futures-channel = { version = "=0.3.34", features = ["sink"] }
futures-util = { version = "=0.3.34", features = ["sink"] }
tokio = { version = "=1.54.1", features = ["rt", "net", "sync", "macros"] }
tokio-stream = { version = "=0.1.19", features = ["sync"] }
tokio-tungstenite = "=0.30.0"
reqwest = { version = "=0.12.28", default-features = false, features = ["rustls-tls"] }
http-body-util = "=0.1.5"
anyhow = "=1.0.104"
tracing = "=0.1.44"
