[package]
name = "code_auth"
version = "0.1.0"
edition = "2021"
publish = false

[dependencies]
aes-gcm = "0.10"
rand = "0.8"
lz4_flex = "0.11"
flate2 = "1"
zstd = "0.13"
pbkdf2 = "0.12"
argon2 = "0.5"
scrypt = "0.11"
hkdf = "0.12"
sha2 = "0.10"
blake3 = "1"
k256 = { version = "0.13", features = ["ecdh", "ecdsa"] }
p256 = { version = "0.13", features = ["ecdh", "ecdsa"] }
p384 = { version = "0.13", features = ["ecdh", "ecdsa"] }
rsa = "0.9"
base64 = "0.22"
serde = { version = "1", features = ["derive"] }
serde_json = "1"
wasm-bindgen = "0.2"
wasm-bindgen-futures = "0.4"
js-sys = "0.3"
web-sys = { version = "0.3", features = ["Request", "RequestInit", "Response", "Headers", "Window"] }
serde-wasm-bindgen = "0.6"
paste = "1"

[dev-dependencies]
hex = "0.4"
