[package]
name = "madoguchi"
version = "0.4.0"
edition = "2021"
publish = false

[dependencies]
anda-config = "=0.2.3"
async-compression = { version = "=0.4.51", features = ["futures-io", "gzip"] }
base64 = "=0.22.1"
chrono = { version = "=0.4.45", features = ["serde"] }
dotenv = "=0.15.0"
quick-xml = { version = "=0.36.2", features = ["serialize"] }
reqwest = { version = "=0.12.28", default-features = false, features = ["default-tls", "stream"] }
rocket = { version = "=0.5.2", features = ["json"] }
rocket_db_pools = { version = "=0.2.0", features = ["sqlx_postgres"] }
serde = { version = "=1.0.229", features = ["derive"] }
serde_json = "=1.0.154"
sqlx = { version = "=0.7.4", default-features = false, features = ["chrono", "postgres"] }
tracing = "=0.1.44"
tracing-logfmt = "=0.3.7"
tracing-subscriber = { version = "=0.3.23", features = ["env-filter"] }
webhook = "=2.1.2"
