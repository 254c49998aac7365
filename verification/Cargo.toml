[package]
name = "schizoid"
version = "0.1.0"
edition = "2021"
publish = false

[dependencies]
anyhow = "1"
chrono = "0.4"
chrono-tz = "0.10"
clap = { version = "4", features = ["derive"] }
log = "0.4"
mcping = "0.2"
parking_lot = "0.12"
poise = "0.6"
serde = { version = "1", features = ["derive"] }
serenity = "0.12"
sqlx = { version = "0.8", default-features = false, features = ["sqlite", "runtime-tokio"] }
tokio = { version = "1", features = ["full"] }
toml = "0.8"
tracing-subscriber = "0.3"
