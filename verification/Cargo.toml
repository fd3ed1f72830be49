[package]
name = "mongoose"
version = "0.1.0"
edition = "2021"
publish = false

[dependencies]
anyhow = "1"
bson = "2"
convert_case = "*"
futures = "0.3"
mongodb = "2"
nanoid = "*"
serde = { version = "1", features = ["derive"] }
tokio = { version = "1", features = ["macros", "rt-multi-thread", "sync"] }
tracing = "*"
tracing-subscriber = "*"
