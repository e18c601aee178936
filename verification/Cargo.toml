[package]
name = "ssh_terminal"
version = "0.1.0"
edition = "2021"
publish = false

[dependencies]
aes-gcm = "0.10"
anyhow = "1"
directories = "5"
dirs = "5"
env_logger = "0.10"
log = "0.4"
rand = "0.8"
serde = { version = "1", features = ["derive"] }
serde_json = "1"
ssh2 = "0.9"
ssh-key = { version = "0.6", features = ["ed25519", "rsa", "encryption", "rand_core"] }
thiserror = "1"
tokio = { version = "1", features = ["sync", "time", "rt", "fs"] }
uuid = { version = "1", features = ["v4"] }
