[package]
name = "moonshine"
version = "0.1.0"
edition = "2021"
publish = false

[dependencies]
hex = "*"
openssl = "*"
reed-solomon-erasure = "*"
tokio = { version = "1", features = ["full"] }
hyper = { version = "0.14", features = ["full"] }
async-shutdown = "*"
enet = "*"
zeroconf = "*"
