[package]
name = "explorer_core"
version = "0.1.0"
edition = "2021"
publish = false

[dependencies]
aes-gcm = "=0.10.3"
pbkdf2 = "=0.12.2"
sha2 = "=0.10.9"
rand = "=0.8.8"
zip = { version = "=8.6.0", default-features = false }
walkdir = "=2.5.0"
sysinfo = "=0.39.6"
