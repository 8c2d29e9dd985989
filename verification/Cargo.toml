[package]
name = "hacss"
version = "0.1.0"
edition = "2021"
publish = false

[dependencies]
aes = "*"
cbc = "*"
libcrux-aead = "*"
libcrux-ecdh = "*"
libcrux-hkdf = "*"
libcrux-hmac = "*"
libcrux-ml-dsa = "*"
libcrux-ml-kem = { version = "*", features = ["incremental"] }
libcrux-sha3 = "*"
rand = "*"
zeroize = "*"
