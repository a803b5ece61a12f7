[package]
name = "datalith"
version = "0.1.0"
edition = "2021"
publish = false

[dependencies]
percent-encoding = "2"
rand = "*"
serde_json = "1"
anyhow = "1"
conv = "0.3"
txtodo = "*"
