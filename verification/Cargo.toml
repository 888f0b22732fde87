[package]
name = "rustuya"
version = "0.1.0"
edition = "2021"
publish = false

[dependencies]
aes = "*"
aes-gcm = "*"
ecb = "*"
cipher = "*"
crc = "*"
hmac = "*"
sha2 = "*"
base64 = "*"
rand = "*"
serde_json = "*"
tokio = { version = "*", features = ["rt-multi-thread", "net", "sync", "time", "io-util", "macros"] }
tokio-util = "*"
socket2 = "*"
futures-core = "*"
futures-util = "*"
async-stream = "*"
thiserror = "*"
rlimit = "*"
