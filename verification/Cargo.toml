[package]
name = "mydistinctai"
version = "0.1.0"
edition = "2021"
publish = false

[dependencies]
aes-gcm = "=0.10.3"
argon2 = "=0.5.3"
hex = "=0.4.3"
rand = "=0.8.8"
unicode-segmentation = "=1.13.3"
uuid = { version = "=1.29.0", features = ["v4"] }
lopdf = "=0.46.0"
docx-rs = "=0.4.22"
chrono = "=0.4.45"
serde = { version = "1", features = ["derive"] }
serde_json = "1"
thiserror = "1"
tokio = { version = "1", features = ["full"] }
futures = "0.3"
reqwest = { version = "0.12", default-features = false, features = ["json", "blocking"] }
sqlx = { version = "0.8", default-features = false, features = ["sqlite", "runtime-tokio"] }
arrow-array = "*"
arrow-schema = "*"
