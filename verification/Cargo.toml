[package]
name = "postboard"
version = "0.1.0"
edition = "2021"
publish = false

[dependencies]
bytes = "1"
console = "0.15"
foundationdb = "0.5"
futures = "0.3"
futures-util = "0.3"
lazy_static = "1"
tokio = { version = "1", features = ["macros", "rt", "sync"] }
tokio-stream = "0.1"
warp = "0.3"
