[package]
name = "gauth"
version = "0.1.0"
edition = "2021"
publish = false

[dependencies]
aes-gcm = "0.10"
base32 = "0.5"
clap = { version = "4", features = ["derive"] }
crossterm = "0.28"
dialoguer = "0.11"
dirs = "5"
indicatif = "0.17"
keyring = "3"
pbkdf2 = "0.12"
rand_core = { version = "0.6", features = ["getrandom"] }
ratatui = "0.29"
serde = { version = "1", features = ["derive"] }
serde_json = "1"
sha2 = "0.10"
thiserror = "1"
toml = "0.8"
totp-rs = "5"
