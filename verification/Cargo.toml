[package]
name = "session_pool"
version = "0.1.0"
edition = "2021"
publish = false

[dependencies]
russh = { version = "=0.64.1", default-features = false, features = ["ring"] }
tokio = { version = "=1.53.2", default-features = false, features = ["sync", "rt"] }
uuid = { version = "=1.27.0", features = ["v4"] }
