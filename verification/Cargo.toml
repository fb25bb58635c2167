[package]
name = "pebbles"
version = "0.1.0"
edition = "2021"
publish = false

[dependencies]
actix-cors = "0.7"
actix-web = { version = "4", default-features = false, features = ["macros", "cookies"] }
actix-ws = "0.3"
anyhow = "1"
chrono = "0.4"
clap = "4"
config = { version = "0.14", default-features = false, features = ["yaml"] }
deadpool-redis = "0.18"
dyn-fmt = "*"
futures-util = "0.3"
hickory-resolver = "0.24"
lettre = { version = "0.11", default-features = false, features = ["builder", "smtp-transport", "tokio1", "hostname"] }
mailparse = "*"
pasetors = "0.7"
rand = "0.8"
serde = { version = "1", features = ["derive"] }
serde_json = "1"
sqlx = { version = "0.8", default-features = false, features = ["postgres", "runtime-tokio", "uuid"] }
thiserror = "1"
tokio = { version = "1", features = ["full"] }
tracing = "0.1"
tracing-appender = "0.2"
tracing-subscriber = { version = "0.3", features = ["env-filter"] }
uuid = { version = "1", features = ["v4"] }
