[package]
name = "contego"
version = "0.1.0"
edition = "2021"
publish = false

[dependencies]
aes-gcm = "0.10"
base64 = "0.22"
rand = "0.8"
sha256 = "1"
x25519-dalek = "2"
tokio = { version = "1", features = ["full"] }
clap = { version = "4", features = ["derive"] }
ureq = "2"
