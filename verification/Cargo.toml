[package]
name = "pi_omp_setup"
version = "0.1.1"
edition = "2021"
publish = false

[dependencies]
aes-gcm = "0.10"
argon2 = "0.5"
base64 = "0.22"
rand = "0.8"
url = "2"
serde = { version = "1", features = ["derive"] }
serde_json = "1"
serde_yaml_ng = "0.10"
tempfile = "3"
clap = { version = "4", features = ["derive"] }
dirs = "5"
rpassword = "7"
zeroize = "1"
anyhow = "1"
