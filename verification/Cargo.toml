[package]
name = "smart_file_organizer"
version = "0.1.0"
edition = "2021"
publish = false

[dependencies]
uuid = { version = "1", features = ["v4"] }
chrono = "0.4"
sha2 = "0.10"
mime_guess = "2"
serde_json = "1"
serde = { version = "1", features = ["derive"] }
anyhow = "1"
thiserror = "1"
async-trait = "0.1"
walkdir = "2"
rusqlite = { version = "0.31", features = ["bundled"] }
