[package]
name = "oxiterm"
version = "0.4.0"
edition = "2021"
publish = false

[dependencies]
aes-gcm = "=0.10.3"
argon2 = "=0.5.3"
base64 = "=0.22.1"
rand = "=0.8.8"
serde = { version = "=1.0.229", features = ["derive"] }
serde_json = "=1.0.154"
tokio = { version = "=1.54.1", features = ["full"] }
russh = "=0.65.1"
russh-sftp = "=3.0.1"
portable-pty = "=0.9.0"
serialport = { version = "=4.10.1", default-features = false }
git2 = { version = "=0.21.0", features = ["cred"] }
vnc = "=0.4.0"
