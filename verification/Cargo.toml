[package]
name = "lockbox"
version = "0.1.0"
edition = "2021"
publish = false

[dependencies]
aes-gcm = "0.10"
anyhow = "1"
base32 = "*"
chrono = "0.4"
clap = { version = "4", features = ["derive"] }
colored = "*"
copypasta = "*"
crossterm = "*"
passwords = "3"
qr_terminal = "*"
ring = "0.17"
rpassword = "7"
serde = { version = "1", features = ["derive"] }
serde_json = "1"
sha2 = "0.10"
terminal_size = "*"
totp-rs = "5"
