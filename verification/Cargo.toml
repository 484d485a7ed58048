[package]
name = "mls_core"
version = "0.1.0"
edition = "2021"
publish = false

[dependencies]
openssl = "=0.10.81"
hex = "=0.4.3"
sha2 = "=0.10.9"
hmac = "=0.12.1"
hkdf = "=0.12.4"
rand = "=0.8.8"
aes-gcm = "=0.10.3"
x25519-dalek = { version = "=2.0.1", features = ["static_secrets"] }
ed25519-dalek = "=2.1.1"

[dev-dependencies]
serde = "=1.0.229"
serde_json = "=1.0.151"
