[package]
name = "catalog_core"
version = "0.1.0"
edition = "2021"
publish = false

[dependencies]
tokio = { version = "1", features = ["macros", "rt-multi-thread", "sync", "time", "net"] }
sqlx = { version = "0.8", default-features = false, features = ["postgres", "runtime-tokio", "chrono", "uuid", "derive"] }
axum = "0.8"
axum-extra = { version = "0.10", features = ["query"] }
serde = { version = "1", features = ["derive"] }
serde_json = "1"
reqwest = { version = "0.12", default-features = false, features = ["json"] }
chrono = "0.4"
uuid = "1"
anyhow = "1"
dotenvy = "0.15"
tracing = "0.1"
tracing-subscriber = "0.3"
tracing-appender = "0.2"
tower-http = { version = "0.6", features = ["cors", "trace"] }
