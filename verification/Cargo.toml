[package]
name = "dat_discovery"
version = "0.1.0"
edition = "2021"
publish = false

[dependencies]
base64 = "0.10"
blake2-rfc = "0.2"
byteorder = "1"
ed25519-dalek = "0.9"
futures = "0.1"
getopts = "0.2"
hex = "0.3"
rand = "0.6"
sha2 = "0.8"
tokio = "0.1"
tokio-core = "0.1"
trust-dns = "0.15"
trust-dns-proto = { version = "0.6", features = ["mdns"] }
