[package]
name = "stui_plugins"
version = "0.1.0"
edition = "2021"
publish = false

[dependencies]
aes-gcm = "0.10"
base64 = "0.22"
getrandom = "0.2"
md5 = "0.7"
quick-xml = { version = "0.36", features = ["serialize"] }
rand = "0.8"
regex = "1"
serde = { version = "1", features = ["derive"] }
serde_json = "1"
sha2 = "0.10"
toml = "0.8"
url = "2"
