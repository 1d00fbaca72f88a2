[package]
name = "lib_sig"
version = "0.1.0"
edition = "2021"
publish = false

[dependencies]
x25519-dalek = { version = "2", features = ["static_secrets"] }
hkdf = "0.12"
sha2 = "0.10"
aes-siv = "0.7"
rand_core = { version = "0.6", features = ["getrandom"] }
rand = "0.8"
tokio = { version = "1", features = ["full"] }
tokio-stream = "0.1"
tokio-util = { version = "0.7", features = ["codec"] }
futures = "0.3"
