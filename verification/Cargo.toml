[package]
name = "connlib"
version = "0.1.0"
edition = "2021"
publish = false

[dependencies]
anyhow = "*"
backoff = "*"
boringtun = "*"
bytecodec = "*"
bytes = "*"
chrono = "*"
clap = { version = "*", features = ["derive", "env"] }
futures = "*"
ip_network = "*"
ip_network_table = "*"
pnet_packet = "*"
rand = "*"
secrecy = "*"
str0m = { version = "*", default-features = false }
stun_codec = "*"
thiserror = "*"
tokio = { version = "*", features = ["rt", "rt-multi-thread", "macros", "sync", "time", "signal", "fs", "io-util"] }
tracing = "*"
url = "*"
uuid = { version = "*", features = ["v4"] }
