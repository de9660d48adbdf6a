[package]
name = "zerosemester"
version = "0.1.0"
edition = "2021"
publish = false

[dependencies]
axum = "0.7"
crossterm = "0.28"
dotenvy = "0.15"
oauth2 = "4.4"
ratatui = "0.28"
reqwest = { version = "0.12", features = ["json", "multipart"] }
serde = { version = "1", features = ["derive"] }
serde_json = "1"
tokio = { version = "1", features = ["full"] }
webbrowser = "1"
