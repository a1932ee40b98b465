[package]
name = "sql_client"
version = "0.1.0"
edition = "2021"
publish = false

[dependencies]
rusqlite = { version = "*", features = ["bundled"] }
base64 = "*"
serde = { version = "*", features = ["derive"] }
serde_json = "*"
