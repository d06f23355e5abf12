[package]
name = "device_agent"
version = "0.1.0"
edition = "2021"
publish = false

[dependencies]
anyhow = "1"
ctrlc = "3"
either = "1"
httpdate = "1"
nix = { version = "0.29", features = ["signal", "process"] }
rustls = { version = "0.23", default-features = false, features = ["ring", "std", "tls12"] }
serde_json = "1"
sha2 = "0.10"
socket2 = "0.5"

[dev-dependencies]
rand = "0.9"
