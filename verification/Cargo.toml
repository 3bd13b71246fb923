[package]
name = "jsonrpc"
version = "0.1.0"
edition = "2021"
publish = false

[dependencies]
serde_json = "1"
serde = { version = "1", features = ["derive"] }
axum = { version = "0.8", features = ["ws"] }
axum-extra = { version = "0.10", features = ["typed-header"] }
tokio = { version = "1", features = ["macros", "rt-multi-thread", "net", "sync", "time"] }
futures-util = { version = "0.3", features = ["sink"] }
parking_lot = "0.12"
rust_decimal = "1"
async-trait = "0.1"
enum_dispatch = "0.3"
