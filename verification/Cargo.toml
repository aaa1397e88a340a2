[package]
name = "aureus_launcher"
version = "0.3.0"
edition = "2021"
publish = false

[dependencies]
base64 = "0.22"
sha1 = "0.10"
sha2 = "0.10"
shell-words = "1"
url = "2"
rand = "0.9"
serde = { version = "1", features = ["derive"] }
serde_json = "1"
reqwest = { version = "0.12", default-features = false, features = ["json", "rustls-tls"] }
dirs = "6"
zip = { version = "2", default-features = false, features = ["deflate"] }
flate2 = "1"
tar = "0.4"
keyring = "3"
futures-util = "0.3"
