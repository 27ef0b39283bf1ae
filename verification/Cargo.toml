[package]
name = "rm_personal_cloud"
version = "0.1.0"
edition = "2021"
publish = false

[dependencies]
jsonwebtoken = { version = "=11.1.0", features = ["rust_crypto"] }
rand = "=0.8.8"
hex = "=0.4.3"
ring = "=0.17.14"
chrono = "0.4"
serde = { version = "1", features = ["derive"] }
serde_json = "1"
actix = "*"
actix-web = "*"
actix-web-actors = "*"
actix-http = "*"
sqlx = { version = "*", features = ["sqlite", "runtime-tokio"] }
clap = { version = "*", features = ["derive"] }
anyhow = "1"
log = "*"
env_logger = "*"
futures = "*"
mime = "*"
rustls = "*"
rustls-pemfile = "*"
notify = "*"
