[package]
name = "naumachia"
version = "0.1.0"
edition = "2021"
publish = false

[dependencies]
hex = "=0.4.3"
minicbor = "=2.3.1"
pallas-addresses = "=1.4.0"
cardano-multiplatform-lib = "=3.1.3"
sha2 = "=0.10.9"
serde = { version = "=1.0.229", features = ["derive"] }
serde_json = "=1.0.154"
thiserror = "=1.0.69"
async-trait = "=0.1.92"
