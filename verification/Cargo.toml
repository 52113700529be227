[package]
name = "orpheus"
version = "0.1.0"
edition = "2021"
publish = false

[dependencies]
base64 = "0.22"
chrono = "0.4"
regex = "1"
rand = "0.8"
serde = { version = "1", features = ["derive"] }
serde_json = "1"
serenity = "0.12"
poise = "0.6"
tokio = { version = "1", features = ["macros", "rt-multi-thread", "sync", "time"] }
dotenvy = "0.15"
