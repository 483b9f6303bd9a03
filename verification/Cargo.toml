[package]
name = "asset_ingest_api"
version = "0.1.0"
edition = "2021"
publish = false

[dependencies]
csv = "1"
serde_json = "1"
infer = "*"
kamadak-exif = "*"
anyhow = "1"
axum = { version = "*", features = ["multipart"] }
chrono = { version = "*", features = ["serde"] }
dotenvy = "*"
governor = "*"
http = "*"
serde = { version = "1", features = ["derive"] }
sqlx = { version = "*", default-features = false, features = ["runtime-tokio", "postgres", "uuid", "chrono", "json"] }
thiserror = "*"
tokio = { version = "1", features = ["full"] }
tower_governor = "*"
tower-http = { version = "*", features = ["cors"] }
tracing = "*"
tracing-subscriber = { version = "*", features = ["env-filter"] }
uuid = { version = "*", features = ["v4", "serde"] }
