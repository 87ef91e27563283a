[package]
name = "oxidenms"
version = "1.0.5"
edition = "2021"
publish = false

[dependencies]
aes-gcm = "0.10"
pbkdf2 = "0.12"
sha2 = "0.10"
rand = "0.8"
hex = "0.4"
semver = "1"
similar = "2"
minijinja = { version = "2", features = ["loader"] }
rusqlite = { version = "0.32", features = ["bundled"] }
ureq = "2"
serde = { version = "1", features = ["derive"] }
serde_json = "1"
toml = "0.8"
dirs = "5"
chrono = "0.4"
clap = { version = "4", features = ["derive"] }
thiserror = "2"
snmp = "0.2"
ssh-rs = "0.5"
