[package]
name = "whisper"
version = "0.1.0"
edition = "2021"
publish = false

[dependencies]
rand = "0.8"
serde = { version = "1", features = ["derive"] }
serde_json = "1"
chrono = { version = "0.4", features = ["serde"] }
blake3 = "1"
validator = "0.16"
tokio = { version = "1", features = ["rt", "macros", "sync", "time"] }
futures = "0.3"
actix = "0.13"
actix-web = "4"
actix-ws = "0.2"
actix-cors = "0.6"
actix-web-httpauth = "0.8"
actix-multipart = "0.6"
diesel = { version = "1.4", features = ["postgres", "r2d2", "chrono"] }
diesel_migrations = "1.4"
dotenv = "0.15"
env_logger = "0.10"
mime = "0.3"
uuid = { version = "1", features = ["v4"] }
sanitize-filename = "0.4"
derive_more = "0.99"
aws-config = "0.55"
aws-sdk-s3 = "0.28"
openssl = "0.10"
jsonwebtoken = "8"
