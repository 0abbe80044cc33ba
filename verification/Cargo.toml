[package]
name = "breakfast"
version = "0.1.0"
edition = "2021"
publish = false

[dependencies]
siphasher = "=1.0.4"
validator = { version = "=0.20.0", features = ["derive"] }
actix-web = { version = "=4.18.1", features = ["rustls-0_23"] }
actix-web-httpauth = "=0.8.3"
actix-cors = "=0.7.2"
actix-files = "=0.6.10"
argon2 = { version = "=0.5.3", features = ["std"] }
chrono = { version = "=0.4.45", features = ["serde"] }
dashmap = "=6.2.1"
deadpool-postgres = { version = "=0.14.2", features = ["serde"] }
tokio-postgres = { version = "=0.7.18", features = ["with-uuid-1", "with-chrono-0_4"] }
tokio-postgres-rustls = "=0.13.0"
jsonwebtoken = "=9.3.1"
serde = { version = "=1.0.229", features = ["derive"] }
serde_json = "=1.0.154"
uuid = { version = "=1.29.0", features = ["v7", "serde"] }
rust_decimal = { version = "=1.43.0", features = ["db-tokio-postgres", "serde-with-str"] }
rustls = { version = "=0.23.46", default-features = false, features = ["ring", "std", "tls12", "logging"] }
rustls-pki-types = "=1.15.1"
webpki-roots = "=0.26.11"
thiserror = "=2.0.21"
tokio = { version = "=1.54.1", features = ["rt-multi-thread", "macros"] }
tracing = "=0.1.44"
tracing-subscriber = { version = "=0.3.23", features = ["env-filter", "json"] }
config = "=0.15.27"

[dev-dependencies]
