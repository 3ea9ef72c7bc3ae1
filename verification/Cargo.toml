[package]
name = "emc_rs"
version = "0.1.0"
edition = "2021"
publish = false

[dependencies]
rand = "=0.8.8"
anyhow = "1"
chrono = "0.4"
dotenvy = "0.15"
http = "1"
lavalink-rs = { version = "0.13", features = ["serenity"] }
serde = { version = "1", features = ["derive"] }
serde_json = "1"
serenity = { version = "0.12", features = ["voice"] }
songbird = { version = "0.4", default-features = false, features = ["gateway", "serenity"] }
sqlx = { version = "0.8", default-features = false, features = ["sqlite", "runtime-tokio"] }
tokio = { version = "1", features = ["full"] }
tracing = "0.1"
tracing-subscriber = { version = "0.3", features = ["env-filter"] }
