[package]
name = "gallery"
version = "0.1.0"
edition = "2021"
publish = false

[dependencies]
axum = "0.5"
kamadak-exif = "0.5"
sqlx = { version = "0.7", default-features = false, features = ["runtime-tokio", "sqlite", "migrate"] }
tera = { version = "1", default-features = false }
tokio = { version = "1", features = ["full"] }
tower-http = { version = "0.3", features = ["fs", "trace"] }
tracing = "0.1"
tracing-subscriber = { version = "0.3", features = ["env-filter"] }
