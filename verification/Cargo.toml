[package]
name = "network_host"
version = "0.1.0"
edition = "2021"
publish = false

[dependencies]
mio = "=0.5.1"
sha3 = "=0.10.9"
rlp = "=0.5.2"
time = "=0.1.45"
