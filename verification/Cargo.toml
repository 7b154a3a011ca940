[package]
name = "top_doggo"
version = "0.1.0"
edition = "2021"
publish = false

[dependencies]
rand = "0.8"
uuid = { version = "1", features = ["v4"] }
lettre = { version = "0.11", default-features = false, features = ["builder", "smtp-transport"] }
axum = "0.8"
tokio = { version = "1", features = ["rt-multi-thread", "net", "macros"] }
chrono = "0.4"
serde = { version = "1", features = ["derive"] }
