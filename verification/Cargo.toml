[package]
name = "mobility_map"
version = "0.1.0"
edition = "2021"
publish = false

[dependencies]
chrono = { version = "=0.4.45", default-features = false, features = ["std", "clock"] }
serde = { version = "=1.0.229", features = ["derive"] }
csv = "=1.4.0"
zip = { version = "=2.6.1", default-features = false, features = ["deflate"] }
itertools = "=0.13.0"
futures = "=0.3.34"
anyhow = "=1.0.104"
log = "=0.4.35"
tracing = "=0.1.44"
tracing-subscriber = { version = "=0.3.23", features = ["env-filter"] }
tokio = { version = "=1.54.1", features = ["full"] }
sqlx = { version = "=0.8.6", default-features = false, features = ["postgres", "runtime-tokio", "chrono", "migrate", "macros"] }
apalis = { version = "=0.6.4", features = ["catch-panic"] }
apalis-sql = { version = "=0.6.4", default-features = false, features = ["postgres", "migrate", "tokio-comp"] }
axum = "=0.7.9"
tower-http = { version = "=0.5.2", features = ["fs"] }
geojson = "=0.24.2"
clap = { version = "=4.6.7", features = ["derive"] }
