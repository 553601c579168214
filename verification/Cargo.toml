[package]
name = "mtproto"
version = "0.1.0"
edition = "2021"
publish = false

[dependencies]
byteorder = "1"
chrono = "0.4"
crc = "*"
rand = "0.8"
openssl = "0.10"
futures = "0.1"
tokio-io = "0.1"
tokio-tcp = "0.1"
serde = { version = "1", features = ["derive"] }
serde_mtproto = "*"
log = "0.4"
