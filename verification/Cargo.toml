[package]
name = "examparse"
version = "0.1.0"
edition = "2021"
publish = false

[dependencies]
keyring = { version = "=3.6.3", default-features = false }
directories = "=6.0.0"

[dev-dependencies]
serde_json = "=1.0.151"
