[package]
name = "meow_auth"
version = "0.1.0"
edition = "2021"
publish = false

[dependencies]
anyhow = "=1.0.104"
axum = "=0.8.9"
clap = { version = "=4.6.7", features = ["derive"] }
color-print = "=0.3.7"
config = { version = "=0.15.27", default-features = false, features = ["toml"] }
human-panic = "=2.0.8"
nu-ansi-term = "=0.50.3"
serde = { version = "=1.0.229", features = ["derive"] }
smart-default = "=0.7.1"
sqlx = { version = "=0.8.6", default-features = false, features = ["any", "migrate", "postgres", "runtime-tokio"] }
tokio = { version = "=1.54.1", features = ["full"] }
toml = "=1.1.8"
toml_edit = "=0.25.17"
tracing = "=0.1.44"
tracing-appender = "=0.2.5"
tracing-subscriber = { version = "=0.3.23", features = ["env-filter", "json"] }
typed-builder = "=0.23.2"
ulid = { version = "=1.2.1", features = ["serde", "uuid"] }
utoipa = "=6.0.0"
utoipa-axum = "=0.3.0"
utoipa-scalar = { version = "=0.4.0", features = ["axum"] }
uuid = "=1.29.0"
