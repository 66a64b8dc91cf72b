[package]
name = "presignature"
version = "0.1.0"
edition = "2021"
publish = false

[dependencies]
anyhow = "1"
cait-sith = { version = "*", features = ["k256"] }
k256 = { version = "0.13", features = ["sha256", "ecdsa", "serde"] }
rand = "0.8"
thiserror = "1"
tracing = "0.1"

[dev-dependencies]
rand_core = { version = "0.6", features = ["getrandom"] }
