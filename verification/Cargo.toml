[package]
name = "fortress_wallet"
version = "0.1.0"
edition = "2021"
publish = false

[dependencies]
alloy-rlp = "=0.3.17"
argon2 = { version = "=0.6.0", features = ["parallel"] }
base64 = "=0.22.1"
chacha20poly1305 = "=0.10.1"
clap = { version = "4", features = ["derive"] }
k256 = "=0.13.4"
region = "=3.0.2"
rpassword = "7"
rustls = { version = "0.23", default-features = false, features = ["aws_lc_rs", "std", "tls12"] }
serde = { version = "1", features = ["derive"] }
serde_json = "=1.0.154"
sha3 = "=0.10.9"
tempfile = "3"
ureq = { version = "3", default-features = false, features = ["rustls-no-provider", "rustls-webpki-roots"] }
zeroize = "=1.9.1"
