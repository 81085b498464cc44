[package]
name = "chaindexing"
version = "0.1.81"
edition = "2021"
publish = false

[dependencies]
sqlparser = "=0.63.0"
uuid = { version = "=1.29.0", features = ["v4"] }
serde_json = "=1.0.154"
serde = { version = "=1.0.229", features = ["derive"] }

[dev-dependencies]
rusqlite = { version = "*", features = ["bundled"] }
