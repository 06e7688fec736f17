[package]
name = "vhenncoin"
version = "0.1.0"
edition = "2021"
publish = false

[dependencies]
bigdecimal = { version = "=0.4.11", features = ["serde"] }
sha2 = "=0.10.9"
sha256 = "=1.6.0"
hex = "=0.4.3"
k256 = { version = "=0.13.4", features = ["ecdsa", "sha256"] }
serde = { version = "=1.0.229", features = ["derive"] }
serde_json = "=1.0.154"
sled = "=0.34.7"
tokio = { version = "=1.54.1", features = ["rt-multi-thread", "macros", "net", "io-util", "sync"] }
actix-web = { version = "=4.18.1", default-features = false, features = ["macros"] }
awc = { version = "=3.11.0", default-features = false }
log = "=0.4.35"
log4rs = "=1.4.0"
uuid = { version = "=1.29.1", features = ["v4"] }
chrono = "=0.4.45"
dotenv = "=0.15.0"
once_cell = "=1.21.4"
thiserror = "=1.0.69"
redb = "=2.6.4"
mongodb = "=2.8.2"
miniserde = "=0.1.46"
env-file-reader = "=0.3.0"
walkdir = "=2.5.0"
