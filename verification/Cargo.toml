[package]
name = "oxidrive"
version = "0.1.0"
edition = "2021"
publish = false

[dependencies]
argon2 = { version = "=0.5.3", features = ["std"] }
base64 = "=0.22.1"
blake3 = "=1.8.7"
rand = "=0.8.8"
uuid = { version = "=1.29.1", features = ["v4", "v7"] }
time = "=0.3.55"
infer = "=0.16.0"
mime_guess = "=2.0.5"
serde = { version = "=1.0.229", features = ["derive"] }
serde_json = "=1.0.154"
thiserror = "=2.0.21"
tokio = { version = "=1.54.1", features = ["sync", "rt", "macros"] }
async-trait = "=0.1.92"
cedar-policy = "=4.14.1"
sqlx = { version = "=0.8.6", default-features = false, features = ["runtime-tokio", "sqlite", "postgres", "uuid", "time", "json"] }
opendal = { version = "*", default-features = false, features = ["services-memory", "services-fs", "services-s3"] }
