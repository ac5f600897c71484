[package]
name = "envy"
version = "0.1.0"
edition = "2021"
publish = false

[dependencies]
aes-gcm = "0.10"
argon2 = "0.5"
base64ct = { version = "1", features = ["alloc"] }
serde = { version = "1", features = ["derive"] }
serde_json = "1"
rand = "0.8"
zeroize = "1"
uuid = { version = "1", features = ["v4"] }
toml = "0.8"
thiserror = "2"
clap = { version = "4", features = ["derive"] }
clap_complete = "4"
comfy-table = "7"
dialoguer = "0.11"
dirs = "6"
ignore = "0.4"
keyring = "3"
rusqlite = { version = "0.32", features = ["bundled-sqlcipher-vendored-openssl"] }
