[package]
name = "graymamba"
version = "0.1.0"
edition = "2021"
publish = false

[dependencies]
base64 = "=0.21.7"
regex = "=1.13.1"
num-bigint = "=0.4.8"
shamir_secret_sharing = "=0.1.1"
serde_json = "=1.0.154"
ark-ff = "=0.4.2"
ark-bn254 = "=0.4.0"
ark-serialize = "=0.4.2"
hex = "=0.4.3"
tokio = { version = "=1.54.1", features = ["full"] }
chrono = { version = "0.4", default-features = false, features = ["alloc"] }
