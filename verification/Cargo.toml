[package]
name = "iqfeed-rs"
version = "0.1.0"
edition = "2021"
publish = false

[dependencies]
async-channel = "1"
fast-float = "0.2"
lexical = "5"
memmem = "0.1"
once_cell = "1"
rkyv = "0.7"
thiserror = "1"
time = { version = "0.3", features = ["parsing"] }
tokio = { version = "1", features = ["net", "io-util"] }
