[package]
name = "async-fn-stream"
version = "0.1.0"
edition = "2021"
publish = false

[dependencies]
futures-util = { version = "0.3", default-features = false, features = ["std"] }
pin-project-lite = "0.2"
smallvec = "1"

[dev-dependencies]
futures-executor = "0.3"
