[package]
name = "mpk_handshake"
version = "0.1.0"
edition = "2021"
publish = false

[dependencies]
shared_memory = "=0.12.4"
pkey_mprotect = "=0.2.3"
serde_json = "=1.0.151"
nix = { version = "=0.31.3", features = ["fs"] }
libc = "=0.2.190"
