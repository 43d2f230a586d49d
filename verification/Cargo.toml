[package]
name = "fido_mds3_attestation_ca"
version = "0.1.0"
edition = "2021"
publish = false

[dependencies]
base64 = "0.22"
chrono = "0.4"
hex = "0.4"
serde = { version = "1", features = ["derive"] }
serde_json = "1"
sha2 = "0.10"
uuid = { version = "1", features = ["v5"] }
webauthn-rs = "0.5"
x509-parser = "0.16"
thiserror = "2"
dirs = "5"
ureq = "2"
once_cell = "1"
log = "0.4"
env_logger = "0.11"
clap = { version = "4", features = ["derive"] }
indicatif = "0.17"
