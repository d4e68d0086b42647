[package]
name = "ani_core"
version = "0.1.0"
edition = "2021"
publish = false

[dependencies]
percent-encoding = "2"
subtle = "2"
sha1 = "0.10"
sha2 = "0.10"
chrono = { version = "0.4", default-features = false, features = ["clock", "std"] }
url = "2"
serde = { version = "1", features = ["derive"] }
serde_json = "1"
base64 = "0.22"
rand = "0.8"
