[package]
name = "cosmic-scribe"
version = "0.1.0"
edition = "2021"
publish = false

[dependencies]
aes-gcm = "0.10"
hkdf = "0.12"
sha2 = "0.10"
rand = "0.8"
hound = "3"
png = "0.17"
serde = { version = "1", features = ["derive"] }
serde_json = "1"
reqwest = { version = "0.12", default-features = false, features = ["blocking", "json", "multipart", "rustls-tls"] }
tokio = { version = "1", features = ["full"] }
anyhow = "1"
async-trait = "0.1"
chrono = "0.4"
dirs = "5"
tracing = "0.1"
tracing-subscriber = { version = "0.3", features = ["env-filter"] }
ksni = "0.3"
zbus = "5"
futures-util = "0.3"
