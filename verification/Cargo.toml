[package]
name = "notification_worker"
version = "0.1.0"
edition = "2021"
publish = false

[dependencies]
rand = "=0.10.3"
lapin = { version = "=4.12.3", default-features = false, features = ["default-runtime"] }
redis = { version = "=1.8.0", features = ["tokio-comp"] }
serde = { version = "=1.0.229", features = ["derive"] }
serde_json = "=1.0.154"
tokio = { version = "=1.54.1", features = ["macros", "rt-multi-thread"] }
futures-lite = "=2.6.1"
dotenvy = "=0.15.7"
actix-web = { version = "=4.18.1", default-features = false, features = ["macros", "cookies"] }
actix-cors = "=0.7.2"
actix-governor = "=0.10.0"
actix-jwt-auth-middleware = "=0.5.0"
actix-web-validator = "=7.0.0"
argon2 = "=0.5.3"
chrono = { version = "=0.4.45", features = ["serde"] }
diesel = { version = "=2.3.14", features = ["postgres", "r2d2", "serde_json", "chrono", "numeric"] }
diesel-derive-enum = { version = "=2.1.0", features = ["postgres"] }
ed25519-compact = "=2.6.0"
env_logger = { version = "=0.11.11", default-features = false }
jwt-compact = { version = "=0.8.0", features = ["ed25519-compact"] }
log = "=0.4.34"
password-hash = { version = "=0.5.0", features = ["getrandom"] }
rust_decimal = { version = "=1.43.0", features = ["serde-str", "db-diesel-postgres"] }
validator = { version = "=0.20.0", features = ["derive"] }
