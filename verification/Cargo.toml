[package]
name = "untis_calendar"
version = "0.1.0"
edition = "2021"
publish = false

[dependencies]
arcshift = "*"
bytes = "1"
chrono = "0.4"
cookie = "*"
dashmap = "*"
dotenv = "0.15"
governor = "*"
http-body-util = "0.1"
hyper = { version = "1", features = ["full"] }
hyper-util = { version = "0.1", features = ["full"] }
ics = "0.5"
log = "0.4"
reqwest = { version = "0.12", features = ["cookies", "json"] }
serde = { version = "1", features = ["derive"] }
serde_json = "1"
tokio = { version = "1", features = ["full"] }
tracing = "0.1"
tracing-journald = "0.3"
tracing-subscriber = "0.3"
