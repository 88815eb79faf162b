[package]
name = "bluetooth-auto"
version = "0.1.0"
edition = "2021"
publish = false

[dependencies]
dispatch2 = "0.3"
embassy-sync = "0.7"
objc2 = "0.6"
objc2-core-bluetooth = "0.3"
objc2-foundation = "0.3"
portable-atomic = "1"
tokio = { version = "1", features = ["rt", "sync", "time", "macros"] }
