[package]
name = "live_bet"
version = "0.1.0"
edition = "2021"
publish = false

[dependencies]
axum = "=0.7.9"
axum-extra = { version = "=0.9.6", features = ["cookie-signed"] }
bcrypt = "=0.19.3"
dotenvy = "=0.15.7"
pgvector = { version = "=0.4.2", features = ["sqlx"] }
serde = { version = "=1.0.229", features = ["derive"] }
sqlx = { version = "=0.9.0", default-features = false, features = ["runtime-tokio", "postgres", "derive"] }
tera = "=1.20.1"
tokio = { version = "=1.54.1", features = ["full"] }
tower-http = { version = "=0.5.2", features = ["fs"] }
tracing = "=0.1.44"
tracing-subscriber = "=0.3.23"
