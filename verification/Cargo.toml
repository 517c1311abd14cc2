[package]
name = "hakoniwa"
version = "0.1.0"
edition = "2021"
publish = false

[dependencies]
base64 = "0.21"
num-bigint = "0.4"
num-traits = "0.2"
rustc-hash = "1.1"
