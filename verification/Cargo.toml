[package]
name = "zero2prod"
version = "0.1.0"
edition = "2021"
publish = false

[dependencies]
actix-session = { version = "=0.7.2", features = ["cookie-session"] }
actix-web = "=4.18.1"
actix-web-flash-messages = { version = "=0.4.2", features = ["cookies"] }
anyhow = "=1.0.104"
argon2 = { version = "=0.5.3", features = ["std"] }
base64 = "=0.21.7"
chrono = { version = "=0.4.45", default-features = false, features = ["clock"] }
config = { version = "0.13", default-features = false, features = ["yaml"] }
rand = { version = "=0.8.8", features = ["std_rng"] }
reqwest = { version = "=0.11.27", default-features = false, features = ["json"] }
secrecy = { version = "=0.8.0", features = ["serde"] }
serde = { version = "=1.0.229", features = ["derive"] }
serde-aux = "=4.7.0"
sqlx = { version = "=0.7.4", default-features = false, features = ["runtime-tokio", "macros", "postgres", "uuid", "chrono"] }
thiserror = "=1.0.69"
tokio = { version = "=1.54.1", features = ["macros", "rt-multi-thread", "time"] }
tracing = { version = "=0.1.44", features = ["log"] }
tracing-actix-web = "=0.7.25"
tracing-subscriber = { version = "0.3", features = ["env-filter"] }
uuid = { version = "=1.29.0", features = ["v4", "serde"] }
validator = "=0.16.1"
