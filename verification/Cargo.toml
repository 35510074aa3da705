[package]
name = "kominer"
version = "0.1.0"
edition = "2021"
publish = false

[dependencies]
askama = "*"
axum = "*"
base64 = "*"
chrono = { version = "*", features = ["serde"] }
dav-server = "*"
dotenv = "*"
futures-util = "*"
serde = { version = "*", features = ["derive"] }
serde_json = "*"
tokio = { version = "*", features = ["full"] }
tokio-rusqlite = { version = "*", features = ["bundled"] }
tower-http = { version = "*", features = ["fs"] }
