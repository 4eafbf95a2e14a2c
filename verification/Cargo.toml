[package]
name = "things3-cloud"
version = "0.1.0"
edition = "2021"
publish = false

[dependencies]
uuid = "=1.29.0"
sha1 = "=0.10.7"
rand = "=0.8.8"
crc32fast = "=1.5.4"
chrono = "=0.4.45"
serde = { version = "=1.0.229", features = ["derive"] }
serde_json = "=1.0.154"
anyhow = "=1.0.104"
clap = { version = "=4.6.7", features = ["derive"] }
figment = { version = "=0.10.19", features = ["json", "env"] }
reqwest = { version = "=0.12.28", default-features = false, features = ["blocking", "json", "rustls-tls"] }
rpassword = "=7.5.4"
urlencoding = "=2.1.3"
dirs = "6"
