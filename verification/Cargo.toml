[package]
name = "remoteify"
version = "0.1.0"
edition = "2021"
publish = false

[dependencies]
async-trait = "*"
russh = "*"
tokio = { version = "*", features = ["sync", "io-util", "rt"] }
