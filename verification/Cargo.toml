[package]
name = "oxide_browser"
version = "0.1.0"
edition = "2021"
publish = false

[dependencies]
url = "=2.5.8"
percent-encoding = "=2.3.2"
sled = "=0.34.7"
serde_json = "=1.0.154"
base64 = "0.22"
sha2 = "0.10"
chrono = "0.4"
image = "0.25"

[dev-dependencies]
tempfile = "=3.27.0"
