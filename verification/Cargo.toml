[package]
name = "alas-launcher"
version = "0.1.0"
edition = "2021"
publish = false

[dependencies]
anyhow = "1"
base64 = "0.22"
chrono = "0.4"
command-group = "5"
ctrlc = "3"
openssl-probe = "0.1"
reqwest = { version = "0.12", default-features = false, features = ["blocking", "json"] }
rust-i18n = "3"
semver = "1"
serde = { version = "1", features = ["derive"] }
serde_json = "1"
serde_yaml = "0.9"
sha2 = "0.10"
sys-locale = "0.3"
sysinfo = "0.33"
tracing = "0.1"
tracing-appender = "0.2"
tracing-subscriber = "0.3"
url = "2"
