[package]
name = "bencher_core"
version = "0.1.0"
edition = "2021"
publish = false

[dependencies]
chrono = "=0.4.45"
clap = { version = "=4.6.7", features = ["derive", "env"] }
indexmap = { version = "=2.14.2", features = ["serde"] }
serde = { version = "=1.0.229", features = ["derive"] }
serde_json = { version = "=1.0.154", features = ["preserve_order"] }
statrs = "*"
uuid = { version = "=1.29.0", features = ["v4"] }
