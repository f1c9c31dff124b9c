[package]
name = "cliptown_world"
version = "0.1.0"
edition = "2021"
publish = false

[dependencies]
pathfinding = "*"
unicode-normalization = "*"
serde_json = "*"
serde = { version = "*", features = ["derive"] }
anyhow = "*"
axum = { version = "*", features = ["ws"] }
chrono = "*"
futures-util = "*"
libc = "*"
rand = "*"
sqlx = { version = "*", default-features = false, features = ["runtime-tokio", "sqlite", "derive"] }
tokio = { version = "*", features = ["full"] }
toml = "*"
tracing = "*"
tracing-subscriber = { version = "*", features = ["json", "env-filter"] }
ts-rs = "*"
uuid = { version = "*", features = ["v4"] }
