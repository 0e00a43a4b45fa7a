[package]
name = "sftp_trust"
version = "0.1.0"
edition = "2021"
publish = false

[dependencies]
ssh2 = "=0.9.6"
sshkeys = "=0.3.4"
serde = { version = "=1.0.229", features = ["derive"] }
thiserror = "=2.0.21"

[dev-dependencies]
base64 = "=0.22.1"
