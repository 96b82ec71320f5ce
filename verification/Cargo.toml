[package]
name = "thread_store"
version = "0.1.0"
edition = "2021"
publish = false

[dependencies]
rusqlite = "*"
uuid = { version = "1", features = ["v4"] }
serde = { version = "1", features = ["derive"] }
keyring = "3"
tauri = { version = "2", default-features = false }
