[package]
name = "log_archive"
version = "0.1.0"
edition = "2021"
publish = false

[dependencies]
crc32c = "0.6"
getrandom = "0.2"
time = { version = "0.3", features = ["parsing"] }
anyhow = "1"
clap = { version = "4", features = ["derive"] }
ctrlc = "3"
serde = { version = "1", features = ["derive"] }
serde_json = "1"
libc = "0.2"
io-uring = "0.7"
