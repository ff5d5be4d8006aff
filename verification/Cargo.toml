[package]
name = "cooklang_sync_server"
version = "0.1.0"
edition = "2021"
publish = false

[dependencies]
async-stream = "0.3"
axum = "0.8"
diesel = { version = "2", default-features = false, features = ["sqlite"] }
futures = "0.3"
jsonwebtoken = { version = "10", default-features = false, features = ["rust_crypto"] }
multer = "3"
rand = "0.9"
serde = { version = "1", features = ["derive"] }
serde_json = "1"
serde_urlencoded = "0.7"
tokio = { version = "1", features = ["fs", "io-util", "macros", "net", "rt-multi-thread", "signal", "sync", "time"] }
tokio-util = { version = "0.7", features = ["io"] }
tower-http = { version = "0.6", features = ["catch-panic"] }
tracing = "0.1"
tracing-subscriber = { version = "0.3", features = ["env-filter"] }
