[package]
name = "rtmp_client"
version = "0.1.0"
edition = "2021"
publish = false

[dependencies]
flash-lso = "*"
thiserror = "*"
url = "*"
