[package]
name = "ws_gateway"
version = "0.1.0"
edition = "2021"
publish = false

[dependencies]
tokio = { version = "1", features = ["sync", "net", "rt-multi-thread", "macros"] }
serde_json = "1"
tokio-tungstenite = "0.21"
tungstenite = "0.21"
futures-util = "0.3"
sqlx = { version = "0.7", default-features = false, features = ["sqlite", "runtime-tokio"] }
actix-web = { version = "4", default-features = false }
log = "0.4"
